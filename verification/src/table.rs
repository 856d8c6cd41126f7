//! The table of inflection rules, one group for each reason. A rule says
//! which ending of an inflected word stands for which ending of the word it
//! comes from, which classes the inflected word may have, and which classes
//! the other word then has.
//!
//! Each group is written twice: as the sequence of rules that contracts
//! speak of, and as the function that builds it.

use vstd::prelude::*;
use crate::flags::{Reasons, Rules};
use crate::rules::{joined, lemma_table_joined, r, rule, table_rules, InflectionRules, Rule};

verus! {

/// The classes of all verbs.
pub const VERBS: u8 = Rules::V1 | Rules::V5 | Rules::VK | Rules::VS | Rules::VZ;

/// The classes of ichidan and godan verbs.
pub const V1_V5: u8 = Rules::V1 | Rules::V5;

/// The rules that undo the conditional in -ba.
pub open spec fn ba_rules() -> Seq<Rule> {
    seq![
        rule(Reasons::BA, "ければ", "い", 0, Rules::ADJ_I),
        rule(Reasons::BA, "えば", "う", 0, Rules::V5),
        rule(Reasons::BA, "けば", "く", 0, Rules::V5),
        rule(Reasons::BA, "げば", "ぐ", 0, Rules::V5),
        rule(Reasons::BA, "せば", "す", 0, Rules::V5),
        rule(Reasons::BA, "てば", "つ", 0, Rules::V5),
        rule(Reasons::BA, "ねば", "ぬ", 0, Rules::V5),
        rule(Reasons::BA, "べば", "ぶ", 0, Rules::V5),
        rule(Reasons::BA, "めば", "む", 0, Rules::V5),
        rule(Reasons::BA, "れば", "る", 0, VERBS),
    ]
}

/// Builds the group of `ba_rules`.
fn ba() -> (group: InflectionRules)
    ensures
        group.reason@ == Reasons::BA,
        group@ == ba_rules(),
{
    let none = Rules::empty();
    let v5 = Rules::from_bits_retain(Rules::V5);
    let adj_i = Rules::from_bits_retain(Rules::ADJ_I);
    let verbs = Rules::from_bits_retain(VERBS);
    let group = InflectionRules {
        reason: Reasons::from_bits_retain(Reasons::BA),
        rules: vec![
            r("ければ", "い", none, adj_i),
            r("えば", "う", none, v5),
            r("けば", "く", none, v5),
            r("げば", "ぐ", none, v5),
            r("せば", "す", none, v5),
            r("てば", "つ", none, v5),
            r("ねば", "ぬ", none, v5),
            r("べば", "ぶ", none, v5),
            r("めば", "む", none, v5),
            r("れば", "る", none, verbs),
        ],
    };
    assert(group@ =~= ba_rules());
    group
}

/// The rules that undo the contraction -chau.
pub open spec fn chau_rules() -> Seq<Rule> {
    seq![
        rule(Reasons::CHAU, "ちゃう", "る", Rules::V5, Rules::V1),
        rule(Reasons::CHAU, "いじゃう", "ぐ", Rules::V5, Rules::V5),
        rule(Reasons::CHAU, "いちゃう", "く", Rules::V5, Rules::V5),
        rule(Reasons::CHAU, "しちゃう", "す", Rules::V5, Rules::V5),
        rule(Reasons::CHAU, "っちゃう", "う", Rules::V5, Rules::V5),
        rule(Reasons::CHAU, "っちゃう", "く", Rules::V5, Rules::V5),
        rule(Reasons::CHAU, "っちゃう", "つ", Rules::V5, Rules::V5),
        rule(Reasons::CHAU, "っちゃう", "る", Rules::V5, Rules::V5),
        rule(Reasons::CHAU, "んじゃう", "ぬ", Rules::V5, Rules::V5),
        rule(Reasons::CHAU, "んじゃう", "ぶ", Rules::V5, Rules::V5),
        rule(Reasons::CHAU, "んじゃう", "む", Rules::V5, Rules::V5),
        rule(Reasons::CHAU, "じちゃう", "ずる", Rules::V5, Rules::VZ),
        rule(Reasons::CHAU, "しちゃう", "する", Rules::V5, Rules::VS),
        rule(Reasons::CHAU, "為ちゃう", "為る", Rules::V5, Rules::VS),
        rule(Reasons::CHAU, "きちゃう", "くる", Rules::V5, Rules::VK),
        rule(Reasons::CHAU, "来ちゃう", "来る", Rules::V5, Rules::VK),
        rule(Reasons::CHAU, "來ちゃう", "來る", Rules::V5, Rules::VK),
    ]
}

/// Builds the group of `chau_rules`.
fn chau() -> (group: InflectionRules)
    ensures
        group.reason@ == Reasons::CHAU,
        group@ == chau_rules(),
{
    let v1 = Rules::from_bits_retain(Rules::V1);
    let v5 = Rules::from_bits_retain(Rules::V5);
    let vs = Rules::from_bits_retain(Rules::VS);
    let vk = Rules::from_bits_retain(Rules::VK);
    let vz = Rules::from_bits_retain(Rules::VZ);
    let group = InflectionRules {
        reason: Reasons::from_bits_retain(Reasons::CHAU),
        rules: vec![
            r("ちゃう", "る", v5, v1),
            r("いじゃう", "ぐ", v5, v5),
            r("いちゃう", "く", v5, v5),
            r("しちゃう", "す", v5, v5),
            r("っちゃう", "う", v5, v5),
            r("っちゃう", "く", v5, v5),
            r("っちゃう", "つ", v5, v5),
            r("っちゃう", "る", v5, v5),
            r("んじゃう", "ぬ", v5, v5),
            r("んじゃう", "ぶ", v5, v5),
            r("んじゃう", "む", v5, v5),
            r("じちゃう", "ずる", v5, vz),
            r("しちゃう", "する", v5, vs),
            r("為ちゃう", "為る", v5, vs),
            r("きちゃう", "くる", v5, vk),
            r("来ちゃう", "来る", v5, vk),
            r("來ちゃう", "來る", v5, vk),
        ],
    };
    assert(group@ =~= chau_rules());
    group
}

/// The rules that undo the contraction -chimau.
pub open spec fn chimau_rules() -> Seq<Rule> {
    seq![
        rule(Reasons::CHIMAU, "ちまう", "る", Rules::V5, Rules::V1),
        rule(Reasons::CHIMAU, "いじまう", "ぐ", Rules::V5, Rules::V5),
        rule(Reasons::CHIMAU, "いちまう", "く", Rules::V5, Rules::V5),
        rule(Reasons::CHIMAU, "しちまう", "す", Rules::V5, Rules::V5),
        rule(Reasons::CHIMAU, "っちまう", "う", Rules::V5, Rules::V5),
        rule(Reasons::CHIMAU, "っちまう", "く", Rules::V5, Rules::V5),
        rule(Reasons::CHIMAU, "っちまう", "つ", Rules::V5, Rules::V5),
        rule(Reasons::CHIMAU, "っちまう", "る", Rules::V5, Rules::V5),
        rule(Reasons::CHIMAU, "んじまう", "ぬ", Rules::V5, Rules::V5),
        rule(Reasons::CHIMAU, "んじまう", "ぶ", Rules::V5, Rules::V5),
        rule(Reasons::CHIMAU, "んじまう", "む", Rules::V5, Rules::V5),
        rule(Reasons::CHIMAU, "じちまう", "ずる", Rules::V5, Rules::VZ),
        rule(Reasons::CHIMAU, "しちまう", "する", Rules::V5, Rules::VS),
        rule(Reasons::CHIMAU, "為ちまう", "為る", Rules::V5, Rules::VS),
        rule(Reasons::CHIMAU, "きちまう", "くる", Rules::V5, Rules::VK),
        rule(Reasons::CHIMAU, "来ちまう", "来る", Rules::V5, Rules::VK),
        rule(Reasons::CHIMAU, "來ちまう", "來る", Rules::V5, Rules::VK),
    ]
}

/// Builds the group of `chimau_rules`.
fn chimau() -> (group: InflectionRules)
    ensures
        group.reason@ == Reasons::CHIMAU,
        group@ == chimau_rules(),
{
    let v1 = Rules::from_bits_retain(Rules::V1);
    let v5 = Rules::from_bits_retain(Rules::V5);
    let vs = Rules::from_bits_retain(Rules::VS);
    let vk = Rules::from_bits_retain(Rules::VK);
    let vz = Rules::from_bits_retain(Rules::VZ);
    let group = InflectionRules {
        reason: Reasons::from_bits_retain(Reasons::CHIMAU),
        rules: vec![
            r("ちまう", "る", v5, v1),
            r("いじまう", "ぐ", v5, v5),
            r("いちまう", "く", v5, v5),
            r("しちまう", "す", v5, v5),
            r("っちまう", "う", v5, v5),
            r("っちまう", "く", v5, v5),
            r("っちまう", "つ", v5, v5),
            r("っちまう", "る", v5, v5),
            r("んじまう", "ぬ", v5, v5),
            r("んじまう", "ぶ", v5, v5),
            r("んじまう", "む", v5, v5),
            r("じちまう", "ずる", v5, vz),
            r("しちまう", "する", v5, vs),
            r("為ちまう", "為る", v5, vs),
            r("きちまう", "くる", v5, vk),
            r("来ちまう", "来る", v5, vk),
            r("來ちまう", "來る", v5, vk),
        ],
    };
    assert(group@ =~= chimau_rules());
    group
}

/// The rules that undo the auxiliary -shimau.
pub open spec fn shimau_rules() -> Seq<Rule> {
    seq![
        rule(Reasons::SHIMAU, "てしまう", "て", Rules::V5, Rules::IRU),
        rule(Reasons::SHIMAU, "でしまう", "で", Rules::V5, Rules::IRU),
    ]
}

/// Builds the group of `shimau_rules`.
fn shimau() -> (group: InflectionRules)
    ensures
        group.reason@ == Reasons::SHIMAU,
        group@ == shimau_rules(),
{
    let v5 = Rules::from_bits_retain(Rules::V5);
    let iru = Rules::from_bits_retain(Rules::IRU);
    let group = InflectionRules {
        reason: Reasons::from_bits_retain(Reasons::SHIMAU),
        rules: vec![
            r("てしまう", "て", v5, iru),
            r("でしまう", "で", v5, iru),
        ],
    };
    assert(group@ =~= shimau_rules());
    group
}

/// The rules that undo the polite command in -nasai.
pub open spec fn nasai_rules() -> Seq<Rule> {
    seq![
        rule(Reasons::NASAI, "なさい", "る", 0, Rules::V1),
        rule(Reasons::NASAI, "いなさい", "う", 0, Rules::V5),
        rule(Reasons::NASAI, "きなさい", "く", 0, Rules::V5),
        rule(Reasons::NASAI, "ぎなさい", "ぐ", 0, Rules::V5),
        rule(Reasons::NASAI, "しなさい", "す", 0, Rules::V5),
        rule(Reasons::NASAI, "ちなさい", "つ", 0, Rules::V5),
        rule(Reasons::NASAI, "になさい", "ぬ", 0, Rules::V5),
        rule(Reasons::NASAI, "びなさい", "ぶ", 0, Rules::V5),
        rule(Reasons::NASAI, "みなさい", "む", 0, Rules::V5),
        rule(Reasons::NASAI, "りなさい", "る", 0, Rules::V5),
        rule(Reasons::NASAI, "じなさい", "ずる", 0, Rules::VZ),
        rule(Reasons::NASAI, "しなさい", "する", 0, Rules::VS),
        rule(Reasons::NASAI, "為なさい", "為る", 0, Rules::VS),
        rule(Reasons::NASAI, "きなさい", "くる", 0, Rules::VK),
        rule(Reasons::NASAI, "来なさい", "来る", 0, Rules::VK),
        rule(Reasons::NASAI, "來なさい", "來る", 0, Rules::VK),
    ]
}

/// Builds the group of `nasai_rules`.
fn nasai() -> (group: InflectionRules)
    ensures
        group.reason@ == Reasons::NASAI,
        group@ == nasai_rules(),
{
    let none = Rules::empty();
    let v1 = Rules::from_bits_retain(Rules::V1);
    let v5 = Rules::from_bits_retain(Rules::V5);
    let vs = Rules::from_bits_retain(Rules::VS);
    let vk = Rules::from_bits_retain(Rules::VK);
    let vz = Rules::from_bits_retain(Rules::VZ);
    let group = InflectionRules {
        reason: Reasons::from_bits_retain(Reasons::NASAI),
        rules: vec![
            r("なさい", "る", none, v1),
            r("いなさい", "う", none, v5),
            r("きなさい", "く", none, v5),
            r("ぎなさい", "ぐ", none, v5),
            r("しなさい", "す", none, v5),
            r("ちなさい", "つ", none, v5),
            r("になさい", "ぬ", none, v5),
            r("びなさい", "ぶ", none, v5),
            r("みなさい", "む", none, v5),
            r("りなさい", "る", none, v5),
            r("じなさい", "ずる", none, vz),
            r("しなさい", "する", none, vs),
            r("為なさい", "為る", none, vs),
            r("きなさい", "くる", none, vk),
            r("来なさい", "来る", none, vk),
            r("來なさい", "來る", none, vk),
        ],
    };
    assert(group@ =~= nasai_rules());
    group
}

/// The rules that undo the appearance form in -sou.
pub open spec fn sou_rules() -> Seq<Rule> {
    seq![
        rule(Reasons::SOU, "そう", "い", 0, Rules::ADJ_I),
        rule(Reasons::SOU, "そう", "る", 0, Rules::V1),
        rule(Reasons::SOU, "いそう", "う", 0, Rules::V5),
        rule(Reasons::SOU, "きそう", "く", 0, Rules::V5),
        rule(Reasons::SOU, "ぎそう", "ぐ", 0, Rules::V5),
        rule(Reasons::SOU, "しそう", "す", 0, Rules::V5),
        rule(Reasons::SOU, "ちそう", "つ", 0, Rules::V5),
        rule(Reasons::SOU, "にそう", "ぬ", 0, Rules::V5),
        rule(Reasons::SOU, "びそう", "ぶ", 0, Rules::V5),
        rule(Reasons::SOU, "みそう", "む", 0, Rules::V5),
        rule(Reasons::SOU, "りそう", "る", 0, Rules::V5),
        rule(Reasons::SOU, "じそう", "ずる", 0, Rules::VZ),
        rule(Reasons::SOU, "しそう", "する", 0, Rules::VS),
        rule(Reasons::SOU, "為そう", "為る", 0, Rules::VS),
        rule(Reasons::SOU, "きそう", "くる", 0, Rules::VK),
        rule(Reasons::SOU, "来そう", "来る", 0, Rules::VK),
        rule(Reasons::SOU, "來そう", "來る", 0, Rules::VK),
    ]
}

/// Builds the group of `sou_rules`.
fn sou() -> (group: InflectionRules)
    ensures
        group.reason@ == Reasons::SOU,
        group@ == sou_rules(),
{
    let none = Rules::empty();
    let v1 = Rules::from_bits_retain(Rules::V1);
    let v5 = Rules::from_bits_retain(Rules::V5);
    let vs = Rules::from_bits_retain(Rules::VS);
    let vk = Rules::from_bits_retain(Rules::VK);
    let vz = Rules::from_bits_retain(Rules::VZ);
    let adj_i = Rules::from_bits_retain(Rules::ADJ_I);
    let group = InflectionRules {
        reason: Reasons::from_bits_retain(Reasons::SOU),
        rules: vec![
            r("そう", "い", none, adj_i),
            r("そう", "る", none, v1),
            r("いそう", "う", none, v5),
            r("きそう", "く", none, v5),
            r("ぎそう", "ぐ", none, v5),
            r("しそう", "す", none, v5),
            r("ちそう", "つ", none, v5),
            r("にそう", "ぬ", none, v5),
            r("びそう", "ぶ", none, v5),
            r("みそう", "む", none, v5),
            r("りそう", "る", none, v5),
            r("じそう", "ずる", none, vz),
            r("しそう", "する", none, vs),
            r("為そう", "為る", none, vs),
            r("きそう", "くる", none, vk),
            r("来そう", "来る", none, vk),
            r("來そう", "來る", none, vk),
        ],
    };
    assert(group@ =~= sou_rules());
    group
}

/// The rules that undo the excess form in -sugiru.
pub open spec fn sugiru_rules() -> Seq<Rule> {
    seq![
        rule(Reasons::SUGIRU, "すぎる", "い", Rules::V1, Rules::ADJ_I),
        rule(Reasons::SUGIRU, "すぎる", "る", Rules::V1, Rules::V1),
        rule(Reasons::SUGIRU, "いすぎる", "う", Rules::V1, Rules::V5),
        rule(Reasons::SUGIRU, "きすぎる", "く", Rules::V1, Rules::V5),
        rule(Reasons::SUGIRU, "ぎすぎる", "ぐ", Rules::V1, Rules::V5),
        rule(Reasons::SUGIRU, "しすぎる", "す", Rules::V1, Rules::V5),
        rule(Reasons::SUGIRU, "ちすぎる", "つ", Rules::V1, Rules::V5),
        rule(Reasons::SUGIRU, "にすぎる", "ぬ", Rules::V1, Rules::V5),
        rule(Reasons::SUGIRU, "びすぎる", "ぶ", Rules::V1, Rules::V5),
        rule(Reasons::SUGIRU, "みすぎる", "む", Rules::V1, Rules::V5),
        rule(Reasons::SUGIRU, "りすぎる", "る", Rules::V1, Rules::V5),
        rule(Reasons::SUGIRU, "じすぎる", "ずる", Rules::V1, Rules::VZ),
        rule(Reasons::SUGIRU, "しすぎる", "する", Rules::V1, Rules::VS),
        rule(Reasons::SUGIRU, "為すぎる", "為る", Rules::V1, Rules::VS),
        rule(Reasons::SUGIRU, "きすぎる", "くる", Rules::V1, Rules::VK),
        rule(Reasons::SUGIRU, "来すぎる", "来る", Rules::V1, Rules::VK),
        rule(Reasons::SUGIRU, "來すぎる", "來る", Rules::V1, Rules::VK),
    ]
}

/// Builds the group of `sugiru_rules`.
fn sugiru() -> (group: InflectionRules)
    ensures
        group.reason@ == Reasons::SUGIRU,
        group@ == sugiru_rules(),
{
    let v1 = Rules::from_bits_retain(Rules::V1);
    let v5 = Rules::from_bits_retain(Rules::V5);
    let vs = Rules::from_bits_retain(Rules::VS);
    let vk = Rules::from_bits_retain(Rules::VK);
    let vz = Rules::from_bits_retain(Rules::VZ);
    let adj_i = Rules::from_bits_retain(Rules::ADJ_I);
    let group = InflectionRules {
        reason: Reasons::from_bits_retain(Reasons::SUGIRU),
        rules: vec![
            r("すぎる", "い", v1, adj_i),
            r("すぎる", "る", v1, v1),
            r("いすぎる", "う", v1, v5),
            r("きすぎる", "く", v1, v5),
            r("ぎすぎる", "ぐ", v1, v5),
            r("しすぎる", "す", v1, v5),
            r("ちすぎる", "つ", v1, v5),
            r("にすぎる", "ぬ", v1, v5),
            r("びすぎる", "ぶ", v1, v5),
            r("みすぎる", "む", v1, v5),
            r("りすぎる", "る", v1, v5),
            r("じすぎる", "ずる", v1, vz),
            r("しすぎる", "する", v1, vs),
            r("為すぎる", "為る", v1, vs),
            r("きすぎる", "くる", v1, vk),
            r("来すぎる", "来る", v1, vk),
            r("來すぎる", "來る", v1, vk),
        ],
    };
    assert(group@ =~= sugiru_rules());
    group
}

/// The rules that undo the desiderative in -tai.
pub open spec fn tai_rules() -> Seq<Rule> {
    seq![
        rule(Reasons::TAI, "たい", "る", Rules::ADJ_I, Rules::V1),
        rule(Reasons::TAI, "いたい", "う", Rules::ADJ_I, Rules::V5),
        rule(Reasons::TAI, "きたい", "く", Rules::ADJ_I, Rules::V5),
        rule(Reasons::TAI, "ぎたい", "ぐ", Rules::ADJ_I, Rules::V5),
        rule(Reasons::TAI, "したい", "す", Rules::ADJ_I, Rules::V5),
        rule(Reasons::TAI, "ちたい", "つ", Rules::ADJ_I, Rules::V5),
        rule(Reasons::TAI, "にたい", "ぬ", Rules::ADJ_I, Rules::V5),
        rule(Reasons::TAI, "びたい", "ぶ", Rules::ADJ_I, Rules::V5),
        rule(Reasons::TAI, "みたい", "む", Rules::ADJ_I, Rules::V5),
        rule(Reasons::TAI, "りたい", "る", Rules::ADJ_I, Rules::V5),
        rule(Reasons::TAI, "じたい", "ずる", Rules::ADJ_I, Rules::VZ),
        rule(Reasons::TAI, "したい", "する", Rules::ADJ_I, Rules::VS),
        rule(Reasons::TAI, "為たい", "為る", Rules::ADJ_I, Rules::VS),
        rule(Reasons::TAI, "きたい", "くる", Rules::ADJ_I, Rules::VK),
        rule(Reasons::TAI, "来たい", "来る", Rules::ADJ_I, Rules::VK),
        rule(Reasons::TAI, "來たい", "來る", Rules::ADJ_I, Rules::VK),
    ]
}

/// Builds the group of `tai_rules`.
fn tai() -> (group: InflectionRules)
    ensures
        group.reason@ == Reasons::TAI,
        group@ == tai_rules(),
{
    let v1 = Rules::from_bits_retain(Rules::V1);
    let v5 = Rules::from_bits_retain(Rules::V5);
    let vs = Rules::from_bits_retain(Rules::VS);
    let vk = Rules::from_bits_retain(Rules::VK);
    let vz = Rules::from_bits_retain(Rules::VZ);
    let adj_i = Rules::from_bits_retain(Rules::ADJ_I);
    let group = InflectionRules {
        reason: Reasons::from_bits_retain(Reasons::TAI),
        rules: vec![
            r("たい", "る", adj_i, v1),
            r("いたい", "う", adj_i, v5),
            r("きたい", "く", adj_i, v5),
            r("ぎたい", "ぐ", adj_i, v5),
            r("したい", "す", adj_i, v5),
            r("ちたい", "つ", adj_i, v5),
            r("にたい", "ぬ", adj_i, v5),
            r("びたい", "ぶ", adj_i, v5),
            r("みたい", "む", adj_i, v5),
            r("りたい", "る", adj_i, v5),
            r("じたい", "ずる", adj_i, vz),
            r("したい", "する", adj_i, vs),
            r("為たい", "為る", adj_i, vs),
            r("きたい", "くる", adj_i, vk),
            r("来たい", "来る", adj_i, vk),
            r("來たい", "來る", adj_i, vk),
        ],
    };
    assert(group@ =~= tai_rules());
    group
}

/// The rules that undo the conditional in -tara.
pub open spec fn tara_rules() -> Seq<Rule> {
    seq![
        rule(Reasons::TARA, "かったら", "い", 0, Rules::ADJ_I),
        rule(Reasons::TARA, "たら", "る", 0, Rules::V1),
        rule(Reasons::TARA, "いたら", "く", 0, Rules::V5),
        rule(Reasons::TARA, "いだら", "ぐ", 0, Rules::V5),
        rule(Reasons::TARA, "したら", "す", 0, Rules::V5),
        rule(Reasons::TARA, "ったら", "う", 0, Rules::V5),
        rule(Reasons::TARA, "ったら", "つ", 0, Rules::V5),
        rule(Reasons::TARA, "ったら", "る", 0, Rules::V5),
        rule(Reasons::TARA, "んだら", "ぬ", 0, Rules::V5),
        rule(Reasons::TARA, "んだら", "ぶ", 0, Rules::V5),
        rule(Reasons::TARA, "んだら", "む", 0, Rules::V5),
        rule(Reasons::TARA, "じたら", "ずる", 0, Rules::VZ),
        rule(Reasons::TARA, "したら", "する", 0, Rules::VS),
        rule(Reasons::TARA, "為たら", "為る", 0, Rules::VS),
        rule(Reasons::TARA, "きたら", "くる", 0, Rules::VK),
        rule(Reasons::TARA, "来たら", "来る", 0, Rules::VK),
        rule(Reasons::TARA, "來たら", "來る", 0, Rules::VK),
        rule(Reasons::TARA, "いったら", "いく", 0, Rules::V5),
        rule(Reasons::TARA, "おうたら", "おう", 0, Rules::V5),
        rule(Reasons::TARA, "こうたら", "こう", 0, Rules::V5),
        rule(Reasons::TARA, "そうたら", "そう", 0, Rules::V5),
        rule(Reasons::TARA, "とうたら", "とう", 0, Rules::V5),
        rule(Reasons::TARA, "行ったら", "行く", 0, Rules::V5),
        rule(Reasons::TARA, "逝ったら", "逝く", 0, Rules::V5),
        rule(Reasons::TARA, "往ったら", "往く", 0, Rules::V5),
        rule(Reasons::TARA, "請うたら", "請う", 0, Rules::V5),
        rule(Reasons::TARA, "乞うたら", "乞う", 0, Rules::V5),
        rule(Reasons::TARA, "恋うたら", "恋う", 0, Rules::V5),
        rule(Reasons::TARA, "問うたら", "問う", 0, Rules::V5),
        rule(Reasons::TARA, "負うたら", "負う", 0, Rules::V5),
        rule(Reasons::TARA, "沿うたら", "沿う", 0, Rules::V5),
        rule(Reasons::TARA, "添うたら", "添う", 0, Rules::V5),
        rule(Reasons::TARA, "副うたら", "副う", 0, Rules::V5),
        rule(Reasons::TARA, "厭うたら", "厭う", 0, Rules::V5),
        rule(Reasons::TARA, "のたもうたら", "のたまう", 0, Rules::V5),
    ]
}

/// Builds the group of `tara_rules`.
fn tara() -> (group: InflectionRules)
    ensures
        group.reason@ == Reasons::TARA,
        group@ == tara_rules(),
{
    let none = Rules::empty();
    let v1 = Rules::from_bits_retain(Rules::V1);
    let v5 = Rules::from_bits_retain(Rules::V5);
    let vs = Rules::from_bits_retain(Rules::VS);
    let vk = Rules::from_bits_retain(Rules::VK);
    let vz = Rules::from_bits_retain(Rules::VZ);
    let adj_i = Rules::from_bits_retain(Rules::ADJ_I);
    let group = InflectionRules {
        reason: Reasons::from_bits_retain(Reasons::TARA),
        rules: vec![
            r("かったら", "い", none, adj_i),
            r("たら", "る", none, v1),
            r("いたら", "く", none, v5),
            r("いだら", "ぐ", none, v5),
            r("したら", "す", none, v5),
            r("ったら", "う", none, v5),
            r("ったら", "つ", none, v5),
            r("ったら", "る", none, v5),
            r("んだら", "ぬ", none, v5),
            r("んだら", "ぶ", none, v5),
            r("んだら", "む", none, v5),
            r("じたら", "ずる", none, vz),
            r("したら", "する", none, vs),
            r("為たら", "為る", none, vs),
            r("きたら", "くる", none, vk),
            r("来たら", "来る", none, vk),
            r("來たら", "來る", none, vk),
            r("いったら", "いく", none, v5),
            r("おうたら", "おう", none, v5),
            r("こうたら", "こう", none, v5),
            r("そうたら", "そう", none, v5),
            r("とうたら", "とう", none, v5),
            r("行ったら", "行く", none, v5),
            r("逝ったら", "逝く", none, v5),
            r("往ったら", "往く", none, v5),
            r("請うたら", "請う", none, v5),
            r("乞うたら", "乞う", none, v5),
            r("恋うたら", "恋う", none, v5),
            r("問うたら", "問う", none, v5),
            r("負うたら", "負う", none, v5),
            r("沿うたら", "沿う", none, v5),
            r("添うたら", "添う", none, v5),
            r("副うたら", "副う", none, v5),
            r("厭うたら", "厭う", none, v5),
            r("のたもうたら", "のたまう", none, v5),
        ],
    };
    assert(group@ =~= tara_rules());
    group
}

/// The rules that undo the listing form in -tari.
pub open spec fn tari_rules() -> Seq<Rule> {
    seq![
        rule(Reasons::TARI, "かったり", "い", 0, Rules::ADJ_I),
        rule(Reasons::TARI, "たり", "る", 0, Rules::V1),
        rule(Reasons::TARI, "いたり", "く", 0, Rules::V5),
        rule(Reasons::TARI, "いだり", "ぐ", 0, Rules::V5),
        rule(Reasons::TARI, "したり", "す", 0, Rules::V5),
        rule(Reasons::TARI, "ったり", "う", 0, Rules::V5),
        rule(Reasons::TARI, "ったり", "つ", 0, Rules::V5),
        rule(Reasons::TARI, "ったり", "る", 0, Rules::V5),
        rule(Reasons::TARI, "んだり", "ぬ", 0, Rules::V5),
        rule(Reasons::TARI, "んだり", "ぶ", 0, Rules::V5),
        rule(Reasons::TARI, "んだり", "む", 0, Rules::V5),
        rule(Reasons::TARI, "じたり", "ずる", 0, Rules::VZ),
        rule(Reasons::TARI, "したり", "する", 0, Rules::VS),
        rule(Reasons::TARI, "為たり", "為る", 0, Rules::VS),
        rule(Reasons::TARI, "きたり", "くる", 0, Rules::VK),
        rule(Reasons::TARI, "来たり", "来る", 0, Rules::VK),
        rule(Reasons::TARI, "來たり", "來る", 0, Rules::VK),
        rule(Reasons::TARI, "いったり", "いく", 0, Rules::V5),
        rule(Reasons::TARI, "おうたり", "おう", 0, Rules::V5),
        rule(Reasons::TARI, "こうたり", "こう", 0, Rules::V5),
        rule(Reasons::TARI, "そうたり", "そう", 0, Rules::V5),
        rule(Reasons::TARI, "とうたり", "とう", 0, Rules::V5),
        rule(Reasons::TARI, "行ったり", "行く", 0, Rules::V5),
        rule(Reasons::TARI, "逝ったり", "逝く", 0, Rules::V5),
        rule(Reasons::TARI, "往ったり", "往く", 0, Rules::V5),
        rule(Reasons::TARI, "請うたり", "請う", 0, Rules::V5),
        rule(Reasons::TARI, "乞うたり", "乞う", 0, Rules::V5),
        rule(Reasons::TARI, "恋うたり", "恋う", 0, Rules::V5),
        rule(Reasons::TARI, "問うたり", "問う", 0, Rules::V5),
        rule(Reasons::TARI, "負うたり", "負う", 0, Rules::V5),
        rule(Reasons::TARI, "沿うたり", "沿う", 0, Rules::V5),
        rule(Reasons::TARI, "添うたり", "添う", 0, Rules::V5),
        rule(Reasons::TARI, "副うたり", "副う", 0, Rules::V5),
        rule(Reasons::TARI, "厭うたり", "厭う", 0, Rules::V5),
        rule(Reasons::TARI, "のたもうたり", "のたまう", 0, Rules::V5),
    ]
}

/// Builds the group of `tari_rules`.
fn tari() -> (group: InflectionRules)
    ensures
        group.reason@ == Reasons::TARI,
        group@ == tari_rules(),
{
    let none = Rules::empty();
    let v1 = Rules::from_bits_retain(Rules::V1);
    let v5 = Rules::from_bits_retain(Rules::V5);
    let vs = Rules::from_bits_retain(Rules::VS);
    let vk = Rules::from_bits_retain(Rules::VK);
    let vz = Rules::from_bits_retain(Rules::VZ);
    let adj_i = Rules::from_bits_retain(Rules::ADJ_I);
    let group = InflectionRules {
        reason: Reasons::from_bits_retain(Reasons::TARI),
        rules: vec![
            r("かったり", "い", none, adj_i),
            r("たり", "る", none, v1),
            r("いたり", "く", none, v5),
            r("いだり", "ぐ", none, v5),
            r("したり", "す", none, v5),
            r("ったり", "う", none, v5),
            r("ったり", "つ", none, v5),
            r("ったり", "る", none, v5),
            r("んだり", "ぬ", none, v5),
            r("んだり", "ぶ", none, v5),
            r("んだり", "む", none, v5),
            r("じたり", "ずる", none, vz),
            r("したり", "する", none, vs),
            r("為たり", "為る", none, vs),
            r("きたり", "くる", none, vk),
            r("来たり", "来る", none, vk),
            r("來たり", "來る", none, vk),
            r("いったり", "いく", none, v5),
            r("おうたり", "おう", none, v5),
            r("こうたり", "こう", none, v5),
            r("そうたり", "そう", none, v5),
            r("とうたり", "とう", none, v5),
            r("行ったり", "行く", none, v5),
            r("逝ったり", "逝く", none, v5),
            r("往ったり", "往く", none, v5),
            r("請うたり", "請う", none, v5),
            r("乞うたり", "乞う", none, v5),
            r("恋うたり", "恋う", none, v5),
            r("問うたり", "問う", none, v5),
            r("負うたり", "負う", none, v5),
            r("沿うたり", "沿う", none, v5),
            r("添うたり", "添う", none, v5),
            r("副うたり", "副う", none, v5),
            r("厭うたり", "厭う", none, v5),
            r("のたもうたり", "のたまう", none, v5),
        ],
    };
    assert(group@ =~= tari_rules());
    group
}

/// The rules that undo the -te form.
pub open spec fn te_rules() -> Seq<Rule> {
    seq![
        rule(Reasons::TE, "くて", "い", Rules::IRU, Rules::ADJ_I),
        rule(Reasons::TE, "て", "る", Rules::IRU, Rules::V1),
        rule(Reasons::TE, "いて", "く", Rules::IRU, Rules::V5),
        rule(Reasons::TE, "いで", "ぐ", Rules::IRU, Rules::V5),
        rule(Reasons::TE, "して", "す", Rules::IRU, Rules::V5),
        rule(Reasons::TE, "って", "う", Rules::IRU, Rules::V5),
        rule(Reasons::TE, "って", "つ", Rules::IRU, Rules::V5),
        rule(Reasons::TE, "って", "る", Rules::IRU, Rules::V5),
        rule(Reasons::TE, "んで", "ぬ", Rules::IRU, Rules::V5),
        rule(Reasons::TE, "んで", "ぶ", Rules::IRU, Rules::V5),
        rule(Reasons::TE, "んで", "む", Rules::IRU, Rules::V5),
        rule(Reasons::TE, "じて", "ずる", Rules::IRU, Rules::VZ),
        rule(Reasons::TE, "して", "する", Rules::IRU, Rules::VS),
        rule(Reasons::TE, "為て", "為る", Rules::IRU, Rules::VS),
        rule(Reasons::TE, "きて", "くる", Rules::IRU, Rules::VK),
        rule(Reasons::TE, "来て", "来る", Rules::IRU, Rules::VK),
        rule(Reasons::TE, "來て", "來る", Rules::IRU, Rules::VK),
        rule(Reasons::TE, "いって", "いく", Rules::IRU, Rules::V5),
        rule(Reasons::TE, "おうて", "おう", Rules::IRU, Rules::V5),
        rule(Reasons::TE, "こうて", "こう", Rules::IRU, Rules::V5),
        rule(Reasons::TE, "そうて", "そう", Rules::IRU, Rules::V5),
        rule(Reasons::TE, "とうて", "とう", Rules::IRU, Rules::V5),
        rule(Reasons::TE, "行って", "行く", Rules::IRU, Rules::V5),
        rule(Reasons::TE, "逝って", "逝く", Rules::IRU, Rules::V5),
        rule(Reasons::TE, "往って", "往く", Rules::IRU, Rules::V5),
        rule(Reasons::TE, "請うて", "請う", Rules::IRU, Rules::V5),
        rule(Reasons::TE, "乞うて", "乞う", Rules::IRU, Rules::V5),
        rule(Reasons::TE, "恋うて", "恋う", Rules::IRU, Rules::V5),
        rule(Reasons::TE, "問うて", "問う", Rules::IRU, Rules::V5),
        rule(Reasons::TE, "負うて", "負う", Rules::IRU, Rules::V5),
        rule(Reasons::TE, "沿うて", "沿う", Rules::IRU, Rules::V5),
        rule(Reasons::TE, "添うて", "添う", Rules::IRU, Rules::V5),
        rule(Reasons::TE, "副うて", "副う", Rules::IRU, Rules::V5),
        rule(Reasons::TE, "厭うて", "厭う", Rules::IRU, Rules::V5),
        rule(Reasons::TE, "のたもうて", "のたまう", Rules::IRU, Rules::V5),
    ]
}

/// Builds the group of `te_rules`.
fn te() -> (group: InflectionRules)
    ensures
        group.reason@ == Reasons::TE,
        group@ == te_rules(),
{
    let v1 = Rules::from_bits_retain(Rules::V1);
    let v5 = Rules::from_bits_retain(Rules::V5);
    let vs = Rules::from_bits_retain(Rules::VS);
    let vk = Rules::from_bits_retain(Rules::VK);
    let vz = Rules::from_bits_retain(Rules::VZ);
    let adj_i = Rules::from_bits_retain(Rules::ADJ_I);
    let iru = Rules::from_bits_retain(Rules::IRU);
    let group = InflectionRules {
        reason: Reasons::from_bits_retain(Reasons::TE),
        rules: vec![
            r("くて", "い", iru, adj_i),
            r("て", "る", iru, v1),
            r("いて", "く", iru, v5),
            r("いで", "ぐ", iru, v5),
            r("して", "す", iru, v5),
            r("って", "う", iru, v5),
            r("って", "つ", iru, v5),
            r("って", "る", iru, v5),
            r("んで", "ぬ", iru, v5),
            r("んで", "ぶ", iru, v5),
            r("んで", "む", iru, v5),
            r("じて", "ずる", iru, vz),
            r("して", "する", iru, vs),
            r("為て", "為る", iru, vs),
            r("きて", "くる", iru, vk),
            r("来て", "来る", iru, vk),
            r("來て", "來る", iru, vk),
            r("いって", "いく", iru, v5),
            r("おうて", "おう", iru, v5),
            r("こうて", "こう", iru, v5),
            r("そうて", "そう", iru, v5),
            r("とうて", "とう", iru, v5),
            r("行って", "行く", iru, v5),
            r("逝って", "逝く", iru, v5),
            r("往って", "往く", iru, v5),
            r("請うて", "請う", iru, v5),
            r("乞うて", "乞う", iru, v5),
            r("恋うて", "恋う", iru, v5),
            r("問うて", "問う", iru, v5),
            r("負うて", "負う", iru, v5),
            r("沿うて", "沿う", iru, v5),
            r("添うて", "添う", iru, v5),
            r("副うて", "副う", iru, v5),
            r("厭うて", "厭う", iru, v5),
            r("のたもうて", "のたまう", iru, v5),
        ],
    };
    assert(group@ =~= te_rules());
    group
}

/// The rules that undo the negative in -zu.
pub open spec fn zu_rules() -> Seq<Rule> {
    seq![
        rule(Reasons::ZU, "ず", "る", 0, Rules::V1),
        rule(Reasons::ZU, "かず", "く", 0, Rules::V5),
        rule(Reasons::ZU, "がず", "ぐ", 0, Rules::V5),
        rule(Reasons::ZU, "さず", "す", 0, Rules::V5),
        rule(Reasons::ZU, "たず", "つ", 0, Rules::V5),
        rule(Reasons::ZU, "なず", "ぬ", 0, Rules::V5),
        rule(Reasons::ZU, "ばず", "ぶ", 0, Rules::V5),
        rule(Reasons::ZU, "まず", "む", 0, Rules::V5),
        rule(Reasons::ZU, "らず", "る", 0, Rules::V5),
        rule(Reasons::ZU, "わず", "う", 0, Rules::V5),
        rule(Reasons::ZU, "ぜず", "ずる", 0, Rules::VZ),
        rule(Reasons::ZU, "せず", "する", 0, Rules::VS),
        rule(Reasons::ZU, "為ず", "為る", 0, Rules::VS),
        rule(Reasons::ZU, "こず", "くる", 0, Rules::VK),
        rule(Reasons::ZU, "来ず", "来る", 0, Rules::VK),
        rule(Reasons::ZU, "來ず", "來る", 0, Rules::VK),
    ]
}

/// Builds the group of `zu_rules`.
fn zu() -> (group: InflectionRules)
    ensures
        group.reason@ == Reasons::ZU,
        group@ == zu_rules(),
{
    let none = Rules::empty();
    let v1 = Rules::from_bits_retain(Rules::V1);
    let v5 = Rules::from_bits_retain(Rules::V5);
    let vs = Rules::from_bits_retain(Rules::VS);
    let vk = Rules::from_bits_retain(Rules::VK);
    let vz = Rules::from_bits_retain(Rules::VZ);
    let group = InflectionRules {
        reason: Reasons::from_bits_retain(Reasons::ZU),
        rules: vec![
            r("ず", "る", none, v1),
            r("かず", "く", none, v5),
            r("がず", "ぐ", none, v5),
            r("さず", "す", none, v5),
            r("たず", "つ", none, v5),
            r("なず", "ぬ", none, v5),
            r("ばず", "ぶ", none, v5),
            r("まず", "む", none, v5),
            r("らず", "る", none, v5),
            r("わず", "う", none, v5),
            r("ぜず", "ずる", none, vz),
            r("せず", "する", none, vs),
            r("為ず", "為る", none, vs),
            r("こず", "くる", none, vk),
            r("来ず", "来る", none, vk),
            r("來ず", "來る", none, vk),
        ],
    };
    assert(group@ =~= zu_rules());
    group
}

/// The rules that undo the negative in -nu.
pub open spec fn nu_rules() -> Seq<Rule> {
    seq![
        rule(Reasons::NU, "ぬ", "る", 0, Rules::V1),
        rule(Reasons::NU, "かぬ", "く", 0, Rules::V5),
        rule(Reasons::NU, "がぬ", "ぐ", 0, Rules::V5),
        rule(Reasons::NU, "さぬ", "す", 0, Rules::V5),
        rule(Reasons::NU, "たぬ", "つ", 0, Rules::V5),
        rule(Reasons::NU, "なぬ", "ぬ", 0, Rules::V5),
        rule(Reasons::NU, "ばぬ", "ぶ", 0, Rules::V5),
        rule(Reasons::NU, "まぬ", "む", 0, Rules::V5),
        rule(Reasons::NU, "らぬ", "る", 0, Rules::V5),
        rule(Reasons::NU, "わぬ", "う", 0, Rules::V5),
        rule(Reasons::NU, "ぜぬ", "ずる", 0, Rules::VZ),
        rule(Reasons::NU, "せぬ", "する", 0, Rules::VS),
        rule(Reasons::NU, "為ぬ", "為る", 0, Rules::VS),
        rule(Reasons::NU, "こぬ", "くる", 0, Rules::VK),
        rule(Reasons::NU, "来ぬ", "来る", 0, Rules::VK),
        rule(Reasons::NU, "來ぬ", "來る", 0, Rules::VK),
    ]
}

/// Builds the group of `nu_rules`.
fn nu() -> (group: InflectionRules)
    ensures
        group.reason@ == Reasons::NU,
        group@ == nu_rules(),
{
    let none = Rules::empty();
    let v1 = Rules::from_bits_retain(Rules::V1);
    let v5 = Rules::from_bits_retain(Rules::V5);
    let vs = Rules::from_bits_retain(Rules::VS);
    let vk = Rules::from_bits_retain(Rules::VK);
    let vz = Rules::from_bits_retain(Rules::VZ);
    let group = InflectionRules {
        reason: Reasons::from_bits_retain(Reasons::NU),
        rules: vec![
            r("ぬ", "る", none, v1),
            r("かぬ", "く", none, v5),
            r("がぬ", "ぐ", none, v5),
            r("さぬ", "す", none, v5),
            r("たぬ", "つ", none, v5),
            r("なぬ", "ぬ", none, v5),
            r("ばぬ", "ぶ", none, v5),
            r("まぬ", "む", none, v5),
            r("らぬ", "る", none, v5),
            r("わぬ", "う", none, v5),
            r("ぜぬ", "ずる", none, vz),
            r("せぬ", "する", none, vs),
            r("為ぬ", "為る", none, vs),
            r("こぬ", "くる", none, vk),
            r("来ぬ", "来る", none, vk),
            r("來ぬ", "來る", none, vk),
        ],
    };
    assert(group@ =~= nu_rules());
    group
}

/// The rules that undo the adverbial form.
pub open spec fn adv_rules() -> Seq<Rule> {
    seq![
        rule(Reasons::ADV, "く", "い", 0, Rules::ADJ_I),
    ]
}

/// Builds the group of `adv_rules`.
fn adv() -> (group: InflectionRules)
    ensures
        group.reason@ == Reasons::ADV,
        group@ == adv_rules(),
{
    let none = Rules::empty();
    let adj_i = Rules::from_bits_retain(Rules::ADJ_I);
    let group = InflectionRules {
        reason: Reasons::from_bits_retain(Reasons::ADV),
        rules: vec![
            r("く", "い", none, adj_i),
        ],
    };
    assert(group@ =~= adv_rules());
    group
}

/// The rules that undo the causative.
pub open spec fn causative_rules() -> Seq<Rule> {
    seq![
        rule(Reasons::CAUSATIVE, "させる", "る", Rules::V1, Rules::V1),
        rule(Reasons::CAUSATIVE, "かせる", "く", Rules::V1, Rules::V5),
        rule(Reasons::CAUSATIVE, "がせる", "ぐ", Rules::V1, Rules::V5),
        rule(Reasons::CAUSATIVE, "させる", "す", Rules::V1, Rules::V5),
        rule(Reasons::CAUSATIVE, "たせる", "つ", Rules::V1, Rules::V5),
        rule(Reasons::CAUSATIVE, "なせる", "ぬ", Rules::V1, Rules::V5),
        rule(Reasons::CAUSATIVE, "ばせる", "ぶ", Rules::V1, Rules::V5),
        rule(Reasons::CAUSATIVE, "ませる", "む", Rules::V1, Rules::V5),
        rule(Reasons::CAUSATIVE, "らせる", "る", Rules::V1, Rules::V5),
        rule(Reasons::CAUSATIVE, "わせる", "う", Rules::V1, Rules::V5),
        rule(Reasons::CAUSATIVE, "じさせる", "ずる", Rules::V1, Rules::VZ),
        rule(Reasons::CAUSATIVE, "ぜさせる", "ずる", Rules::V1, Rules::VZ),
        rule(Reasons::CAUSATIVE, "させる", "する", Rules::V1, Rules::VS),
        rule(Reasons::CAUSATIVE, "為せる", "為る", Rules::V1, Rules::VS),
        rule(Reasons::CAUSATIVE, "せさせる", "する", Rules::V1, Rules::VS),
        rule(Reasons::CAUSATIVE, "為させる", "為る", Rules::V1, Rules::VS),
        rule(Reasons::CAUSATIVE, "こさせる", "くる", Rules::V1, Rules::VK),
        rule(Reasons::CAUSATIVE, "来させる", "来る", Rules::V1, Rules::VK),
        rule(Reasons::CAUSATIVE, "來させる", "來る", Rules::V1, Rules::VK),
    ]
}

/// Builds the group of `causative_rules`.
fn causative() -> (group: InflectionRules)
    ensures
        group.reason@ == Reasons::CAUSATIVE,
        group@ == causative_rules(),
{
    let v1 = Rules::from_bits_retain(Rules::V1);
    let v5 = Rules::from_bits_retain(Rules::V5);
    let vs = Rules::from_bits_retain(Rules::VS);
    let vk = Rules::from_bits_retain(Rules::VK);
    let vz = Rules::from_bits_retain(Rules::VZ);
    let group = InflectionRules {
        reason: Reasons::from_bits_retain(Reasons::CAUSATIVE),
        rules: vec![
            r("させる", "る", v1, v1),
            r("かせる", "く", v1, v5),
            r("がせる", "ぐ", v1, v5),
            r("させる", "す", v1, v5),
            r("たせる", "つ", v1, v5),
            r("なせる", "ぬ", v1, v5),
            r("ばせる", "ぶ", v1, v5),
            r("ませる", "む", v1, v5),
            r("らせる", "る", v1, v5),
            r("わせる", "う", v1, v5),
            r("じさせる", "ずる", v1, vz),
            r("ぜさせる", "ずる", v1, vz),
            r("させる", "する", v1, vs),
            r("為せる", "為る", v1, vs),
            r("せさせる", "する", v1, vs),
            r("為させる", "為る", v1, vs),
            r("こさせる", "くる", v1, vk),
            r("来させる", "来る", v1, vk),
            r("來させる", "來る", v1, vk),
        ],
    };
    assert(group@ =~= causative_rules());
    group
}

/// The rules that undo the imperative.
pub open spec fn imperative_rules() -> Seq<Rule> {
    seq![
        rule(Reasons::IMPERATIVE, "ろ", "る", 0, Rules::V1),
        rule(Reasons::IMPERATIVE, "よ", "る", 0, Rules::V1),
        rule(Reasons::IMPERATIVE, "え", "う", 0, Rules::V5),
        rule(Reasons::IMPERATIVE, "け", "く", 0, Rules::V5),
        rule(Reasons::IMPERATIVE, "げ", "ぐ", 0, Rules::V5),
        rule(Reasons::IMPERATIVE, "せ", "す", 0, Rules::V5),
        rule(Reasons::IMPERATIVE, "て", "つ", 0, Rules::V5),
        rule(Reasons::IMPERATIVE, "ね", "ぬ", 0, Rules::V5),
        rule(Reasons::IMPERATIVE, "べ", "ぶ", 0, Rules::V5),
        rule(Reasons::IMPERATIVE, "め", "む", 0, Rules::V5),
        rule(Reasons::IMPERATIVE, "れ", "る", 0, Rules::V5),
        rule(Reasons::IMPERATIVE, "じろ", "ずる", 0, Rules::VZ),
        rule(Reasons::IMPERATIVE, "ぜよ", "ずる", 0, Rules::VZ),
        rule(Reasons::IMPERATIVE, "しろ", "する", 0, Rules::VS),
        rule(Reasons::IMPERATIVE, "せよ", "する", 0, Rules::VS),
        rule(Reasons::IMPERATIVE, "為ろ", "為る", 0, Rules::VS),
        rule(Reasons::IMPERATIVE, "為よ", "為る", 0, Rules::VS),
        rule(Reasons::IMPERATIVE, "こい", "くる", 0, Rules::VK),
        rule(Reasons::IMPERATIVE, "来い", "来る", 0, Rules::VK),
        rule(Reasons::IMPERATIVE, "來い", "來る", 0, Rules::VK),
    ]
}

/// Builds the group of `imperative_rules`.
fn imperative() -> (group: InflectionRules)
    ensures
        group.reason@ == Reasons::IMPERATIVE,
        group@ == imperative_rules(),
{
    let none = Rules::empty();
    let v1 = Rules::from_bits_retain(Rules::V1);
    let v5 = Rules::from_bits_retain(Rules::V5);
    let vs = Rules::from_bits_retain(Rules::VS);
    let vk = Rules::from_bits_retain(Rules::VK);
    let vz = Rules::from_bits_retain(Rules::VZ);
    let group = InflectionRules {
        reason: Reasons::from_bits_retain(Reasons::IMPERATIVE),
        rules: vec![
            r("ろ", "る", none, v1),
            r("よ", "る", none, v1),
            r("え", "う", none, v5),
            r("け", "く", none, v5),
            r("げ", "ぐ", none, v5),
            r("せ", "す", none, v5),
            r("て", "つ", none, v5),
            r("ね", "ぬ", none, v5),
            r("べ", "ぶ", none, v5),
            r("め", "む", none, v5),
            r("れ", "る", none, v5),
            r("じろ", "ずる", none, vz),
            r("ぜよ", "ずる", none, vz),
            r("しろ", "する", none, vs),
            r("せよ", "する", none, vs),
            r("為ろ", "為る", none, vs),
            r("為よ", "為る", none, vs),
            r("こい", "くる", none, vk),
            r("来い", "来る", none, vk),
            r("來い", "來る", none, vk),
        ],
    };
    assert(group@ =~= imperative_rules());
    group
}

/// The rules that undo the negative imperative.
pub open spec fn imperative_negative_rules() -> Seq<Rule> {
    seq![
        rule(Reasons::IMPERATIVE_NEGATIVE, "な", "", 0, VERBS),
    ]
}

/// Builds the group of `imperative_negative_rules`.
fn imperative_negative() -> (group: InflectionRules)
    ensures
        group.reason@ == Reasons::IMPERATIVE_NEGATIVE,
        group@ == imperative_negative_rules(),
{
    let none = Rules::empty();
    let verbs = Rules::from_bits_retain(VERBS);
    let group = InflectionRules {
        reason: Reasons::from_bits_retain(Reasons::IMPERATIVE_NEGATIVE),
        rules: vec![
            r("な", "", none, verbs),
        ],
    };
    assert(group@ =~= imperative_negative_rules());
    group
}

/// The rules that undo the stem that -masu attaches to.
pub open spec fn masu_stem_rules() -> Seq<Rule> {
    seq![
        rule(Reasons::MASU_STEM, "い", "いる", 0, Rules::V1),
        rule(Reasons::MASU_STEM, "え", "える", 0, Rules::V1),
        rule(Reasons::MASU_STEM, "き", "きる", 0, Rules::V1),
        rule(Reasons::MASU_STEM, "ぎ", "ぎる", 0, Rules::V1),
        rule(Reasons::MASU_STEM, "け", "ける", 0, Rules::V1),
        rule(Reasons::MASU_STEM, "げ", "げる", 0, Rules::V1),
        rule(Reasons::MASU_STEM, "じ", "じる", 0, Rules::V1),
        rule(Reasons::MASU_STEM, "せ", "せる", 0, Rules::V1),
        rule(Reasons::MASU_STEM, "ぜ", "ぜる", 0, Rules::V1),
        rule(Reasons::MASU_STEM, "ち", "ちる", 0, Rules::V1),
        rule(Reasons::MASU_STEM, "て", "てる", 0, Rules::V1),
        rule(Reasons::MASU_STEM, "で", "でる", 0, Rules::V1),
        rule(Reasons::MASU_STEM, "に", "にる", 0, Rules::V1),
        rule(Reasons::MASU_STEM, "ね", "ねる", 0, Rules::V1),
        rule(Reasons::MASU_STEM, "ひ", "ひる", 0, Rules::V1),
        rule(Reasons::MASU_STEM, "び", "びる", 0, Rules::V1),
        rule(Reasons::MASU_STEM, "へ", "へる", 0, Rules::V1),
        rule(Reasons::MASU_STEM, "べ", "べる", 0, Rules::V1),
        rule(Reasons::MASU_STEM, "み", "みる", 0, Rules::V1),
        rule(Reasons::MASU_STEM, "め", "める", 0, Rules::V1),
        rule(Reasons::MASU_STEM, "り", "りる", 0, Rules::V1),
        rule(Reasons::MASU_STEM, "れ", "れる", 0, Rules::V1),
        rule(Reasons::MASU_STEM, "い", "う", 0, Rules::V5),
        rule(Reasons::MASU_STEM, "き", "く", 0, Rules::V5),
        rule(Reasons::MASU_STEM, "ぎ", "ぐ", 0, Rules::V5),
        rule(Reasons::MASU_STEM, "し", "す", 0, Rules::V5),
        rule(Reasons::MASU_STEM, "ち", "つ", 0, Rules::V5),
        rule(Reasons::MASU_STEM, "に", "ぬ", 0, Rules::V5),
        rule(Reasons::MASU_STEM, "び", "ぶ", 0, Rules::V5),
        rule(Reasons::MASU_STEM, "み", "む", 0, Rules::V5),
        rule(Reasons::MASU_STEM, "り", "る", 0, Rules::V5),
        rule(Reasons::MASU_STEM, "き", "くる", 0, Rules::VK),
        rule(Reasons::MASU_STEM, "し", "する", 0, Rules::VS),
        rule(Reasons::MASU_STEM, "来", "来る", 0, Rules::VK),
        rule(Reasons::MASU_STEM, "來", "來る", 0, Rules::VK),
    ]
}

/// Builds the group of `masu_stem_rules`.
fn masu_stem() -> (group: InflectionRules)
    ensures
        group.reason@ == Reasons::MASU_STEM,
        group@ == masu_stem_rules(),
{
    let none = Rules::empty();
    let v1 = Rules::from_bits_retain(Rules::V1);
    let v5 = Rules::from_bits_retain(Rules::V5);
    let vs = Rules::from_bits_retain(Rules::VS);
    let vk = Rules::from_bits_retain(Rules::VK);
    let group = InflectionRules {
        reason: Reasons::from_bits_retain(Reasons::MASU_STEM),
        rules: vec![
            r("い", "いる", none, v1),
            r("え", "える", none, v1),
            r("き", "きる", none, v1),
            r("ぎ", "ぎる", none, v1),
            r("け", "ける", none, v1),
            r("げ", "げる", none, v1),
            r("じ", "じる", none, v1),
            r("せ", "せる", none, v1),
            r("ぜ", "ぜる", none, v1),
            r("ち", "ちる", none, v1),
            r("て", "てる", none, v1),
            r("で", "でる", none, v1),
            r("に", "にる", none, v1),
            r("ね", "ねる", none, v1),
            r("ひ", "ひる", none, v1),
            r("び", "びる", none, v1),
            r("へ", "へる", none, v1),
            r("べ", "べる", none, v1),
            r("み", "みる", none, v1),
            r("め", "める", none, v1),
            r("り", "りる", none, v1),
            r("れ", "れる", none, v1),
            r("い", "う", none, v5),
            r("き", "く", none, v5),
            r("ぎ", "ぐ", none, v5),
            r("し", "す", none, v5),
            r("ち", "つ", none, v5),
            r("に", "ぬ", none, v5),
            r("び", "ぶ", none, v5),
            r("み", "む", none, v5),
            r("り", "る", none, v5),
            r("き", "くる", none, vk),
            r("し", "する", none, vs),
            r("来", "来る", none, vk),
            r("來", "來る", none, vk),
        ],
    };
    assert(group@ =~= masu_stem_rules());
    group
}

/// The rules that undo the plain negative.
pub open spec fn negative_rules() -> Seq<Rule> {
    seq![
        rule(Reasons::NEGATIVE, "くない", "い", Rules::ADJ_I, Rules::ADJ_I),
        rule(Reasons::NEGATIVE, "ない", "る", Rules::ADJ_I, Rules::V1),
        rule(Reasons::NEGATIVE, "かない", "く", Rules::ADJ_I, Rules::V5),
        rule(Reasons::NEGATIVE, "がない", "ぐ", Rules::ADJ_I, Rules::V5),
        rule(Reasons::NEGATIVE, "さない", "す", Rules::ADJ_I, Rules::V5),
        rule(Reasons::NEGATIVE, "たない", "つ", Rules::ADJ_I, Rules::V5),
        rule(Reasons::NEGATIVE, "なない", "ぬ", Rules::ADJ_I, Rules::V5),
        rule(Reasons::NEGATIVE, "ばない", "ぶ", Rules::ADJ_I, Rules::V5),
        rule(Reasons::NEGATIVE, "まない", "む", Rules::ADJ_I, Rules::V5),
        rule(Reasons::NEGATIVE, "らない", "る", Rules::ADJ_I, Rules::V5),
        rule(Reasons::NEGATIVE, "わない", "う", Rules::ADJ_I, Rules::V5),
        rule(Reasons::NEGATIVE, "じない", "ずる", Rules::ADJ_I, Rules::VZ),
        rule(Reasons::NEGATIVE, "しない", "する", Rules::ADJ_I, Rules::VS),
        rule(Reasons::NEGATIVE, "為ない", "為る", Rules::ADJ_I, Rules::VS),
        rule(Reasons::NEGATIVE, "こない", "くる", Rules::ADJ_I, Rules::VK),
        rule(Reasons::NEGATIVE, "来ない", "来る", Rules::ADJ_I, Rules::VK),
        rule(Reasons::NEGATIVE, "來ない", "來る", Rules::ADJ_I, Rules::VK),
    ]
}

/// Builds the group of `negative_rules`.
fn negative() -> (group: InflectionRules)
    ensures
        group.reason@ == Reasons::NEGATIVE,
        group@ == negative_rules(),
{
    let v1 = Rules::from_bits_retain(Rules::V1);
    let v5 = Rules::from_bits_retain(Rules::V5);
    let vs = Rules::from_bits_retain(Rules::VS);
    let vk = Rules::from_bits_retain(Rules::VK);
    let vz = Rules::from_bits_retain(Rules::VZ);
    let adj_i = Rules::from_bits_retain(Rules::ADJ_I);
    let group = InflectionRules {
        reason: Reasons::from_bits_retain(Reasons::NEGATIVE),
        rules: vec![
            r("くない", "い", adj_i, adj_i),
            r("ない", "る", adj_i, v1),
            r("かない", "く", adj_i, v5),
            r("がない", "ぐ", adj_i, v5),
            r("さない", "す", adj_i, v5),
            r("たない", "つ", adj_i, v5),
            r("なない", "ぬ", adj_i, v5),
            r("ばない", "ぶ", adj_i, v5),
            r("まない", "む", adj_i, v5),
            r("らない", "る", adj_i, v5),
            r("わない", "う", adj_i, v5),
            r("じない", "ずる", adj_i, vz),
            r("しない", "する", adj_i, vs),
            r("為ない", "為る", adj_i, vs),
            r("こない", "くる", adj_i, vk),
            r("来ない", "来る", adj_i, vk),
            r("來ない", "來る", adj_i, vk),
        ],
    };
    assert(group@ =~= negative_rules());
    group
}

/// The rules that undo the noun form.
pub open spec fn noun_rules() -> Seq<Rule> {
    seq![
        rule(Reasons::NOUN, "さ", "い", 0, Rules::ADJ_I),
    ]
}

/// Builds the group of `noun_rules`.
fn noun() -> (group: InflectionRules)
    ensures
        group.reason@ == Reasons::NOUN,
        group@ == noun_rules(),
{
    let none = Rules::empty();
    let adj_i = Rules::from_bits_retain(Rules::ADJ_I);
    let group = InflectionRules {
        reason: Reasons::from_bits_retain(Reasons::NOUN),
        rules: vec![
            r("さ", "い", none, adj_i),
        ],
    };
    assert(group@ =~= noun_rules());
    group
}

/// The rules that undo the passive.
pub open spec fn passive_rules() -> Seq<Rule> {
    seq![
        rule(Reasons::PASSIVE, "かれる", "く", Rules::V1, Rules::V5),
        rule(Reasons::PASSIVE, "がれる", "ぐ", Rules::V1, Rules::V5),
        rule(Reasons::PASSIVE, "される", "す", Rules::V1, Rules::V5),
        rule(Reasons::PASSIVE, "たれる", "つ", Rules::V1, Rules::V5),
        rule(Reasons::PASSIVE, "なれる", "ぬ", Rules::V1, Rules::V5),
        rule(Reasons::PASSIVE, "ばれる", "ぶ", Rules::V1, Rules::V5),
        rule(Reasons::PASSIVE, "まれる", "む", Rules::V1, Rules::V5),
        rule(Reasons::PASSIVE, "われる", "う", Rules::V1, Rules::V5),
        rule(Reasons::PASSIVE, "られる", "る", Rules::V1, Rules::V5),
        rule(Reasons::PASSIVE, "じされる", "ずる", Rules::V1, Rules::VZ),
        rule(Reasons::PASSIVE, "ぜされる", "ずる", Rules::V1, Rules::VZ),
        rule(Reasons::PASSIVE, "される", "する", Rules::V1, Rules::VS),
        rule(Reasons::PASSIVE, "為れる", "為る", Rules::V1, Rules::VS),
        rule(Reasons::PASSIVE, "こられる", "くる", Rules::V1, Rules::VK),
        rule(Reasons::PASSIVE, "来られる", "来る", Rules::V1, Rules::VK),
        rule(Reasons::PASSIVE, "來られる", "來る", Rules::V1, Rules::VK),
    ]
}

/// Builds the group of `passive_rules`.
fn passive() -> (group: InflectionRules)
    ensures
        group.reason@ == Reasons::PASSIVE,
        group@ == passive_rules(),
{
    let v1 = Rules::from_bits_retain(Rules::V1);
    let v5 = Rules::from_bits_retain(Rules::V5);
    let vs = Rules::from_bits_retain(Rules::VS);
    let vk = Rules::from_bits_retain(Rules::VK);
    let vz = Rules::from_bits_retain(Rules::VZ);
    let group = InflectionRules {
        reason: Reasons::from_bits_retain(Reasons::PASSIVE),
        rules: vec![
            r("かれる", "く", v1, v5),
            r("がれる", "ぐ", v1, v5),
            r("される", "す", v1, v5),
            r("たれる", "つ", v1, v5),
            r("なれる", "ぬ", v1, v5),
            r("ばれる", "ぶ", v1, v5),
            r("まれる", "む", v1, v5),
            r("われる", "う", v1, v5),
            r("られる", "る", v1, v5),
            r("じされる", "ずる", v1, vz),
            r("ぜされる", "ずる", v1, vz),
            r("される", "する", v1, vs),
            r("為れる", "為る", v1, vs),
            r("こられる", "くる", v1, vk),
            r("来られる", "来る", v1, vk),
            r("來られる", "來る", v1, vk),
        ],
    };
    assert(group@ =~= passive_rules());
    group
}

/// The rules that undo the plain past.
pub open spec fn past_rules() -> Seq<Rule> {
    seq![
        rule(Reasons::PAST, "かった", "い", 0, Rules::ADJ_I),
        rule(Reasons::PAST, "た", "る", 0, Rules::V1),
        rule(Reasons::PAST, "いた", "く", 0, Rules::V5),
        rule(Reasons::PAST, "いだ", "ぐ", 0, Rules::V5),
        rule(Reasons::PAST, "した", "す", 0, Rules::V5),
        rule(Reasons::PAST, "った", "う", 0, Rules::V5),
        rule(Reasons::PAST, "った", "つ", 0, Rules::V5),
        rule(Reasons::PAST, "った", "る", 0, Rules::V5),
        rule(Reasons::PAST, "んだ", "ぬ", 0, Rules::V5),
        rule(Reasons::PAST, "んだ", "ぶ", 0, Rules::V5),
        rule(Reasons::PAST, "んだ", "む", 0, Rules::V5),
        rule(Reasons::PAST, "じた", "ずる", 0, Rules::VZ),
        rule(Reasons::PAST, "した", "する", 0, Rules::VS),
        rule(Reasons::PAST, "為た", "為る", 0, Rules::VS),
        rule(Reasons::PAST, "きた", "くる", 0, Rules::VK),
        rule(Reasons::PAST, "来た", "来る", 0, Rules::VK),
        rule(Reasons::PAST, "來た", "來る", 0, Rules::VK),
        rule(Reasons::PAST, "いった", "いく", 0, Rules::V5),
        rule(Reasons::PAST, "おうた", "おう", 0, Rules::V5),
        rule(Reasons::PAST, "こうた", "こう", 0, Rules::V5),
        rule(Reasons::PAST, "そうた", "そう", 0, Rules::V5),
        rule(Reasons::PAST, "とうた", "とう", 0, Rules::V5),
        rule(Reasons::PAST, "行った", "行く", 0, Rules::V5),
        rule(Reasons::PAST, "逝った", "逝く", 0, Rules::V5),
        rule(Reasons::PAST, "往った", "往く", 0, Rules::V5),
        rule(Reasons::PAST, "請うた", "請う", 0, Rules::V5),
        rule(Reasons::PAST, "乞うた", "乞う", 0, Rules::V5),
        rule(Reasons::PAST, "恋うた", "恋う", 0, Rules::V5),
        rule(Reasons::PAST, "問うた", "問う", 0, Rules::V5),
        rule(Reasons::PAST, "負うた", "負う", 0, Rules::V5),
        rule(Reasons::PAST, "沿うた", "沿う", 0, Rules::V5),
        rule(Reasons::PAST, "添うた", "添う", 0, Rules::V5),
        rule(Reasons::PAST, "副うた", "副う", 0, Rules::V5),
        rule(Reasons::PAST, "厭うた", "厭う", 0, Rules::V5),
        rule(Reasons::PAST, "のたもうた", "のたまう", 0, Rules::V5),
    ]
}

/// Builds the group of `past_rules`.
fn past() -> (group: InflectionRules)
    ensures
        group.reason@ == Reasons::PAST,
        group@ == past_rules(),
{
    let none = Rules::empty();
    let v1 = Rules::from_bits_retain(Rules::V1);
    let v5 = Rules::from_bits_retain(Rules::V5);
    let vs = Rules::from_bits_retain(Rules::VS);
    let vk = Rules::from_bits_retain(Rules::VK);
    let vz = Rules::from_bits_retain(Rules::VZ);
    let adj_i = Rules::from_bits_retain(Rules::ADJ_I);
    let group = InflectionRules {
        reason: Reasons::from_bits_retain(Reasons::PAST),
        rules: vec![
            r("かった", "い", none, adj_i),
            r("た", "る", none, v1),
            r("いた", "く", none, v5),
            r("いだ", "ぐ", none, v5),
            r("した", "す", none, v5),
            r("った", "う", none, v5),
            r("った", "つ", none, v5),
            r("った", "る", none, v5),
            r("んだ", "ぬ", none, v5),
            r("んだ", "ぶ", none, v5),
            r("んだ", "む", none, v5),
            r("じた", "ずる", none, vz),
            r("した", "する", none, vs),
            r("為た", "為る", none, vs),
            r("きた", "くる", none, vk),
            r("来た", "来る", none, vk),
            r("來た", "來る", none, vk),
            r("いった", "いく", none, v5),
            r("おうた", "おう", none, v5),
            r("こうた", "こう", none, v5),
            r("そうた", "そう", none, v5),
            r("とうた", "とう", none, v5),
            r("行った", "行く", none, v5),
            r("逝った", "逝く", none, v5),
            r("往った", "往く", none, v5),
            r("請うた", "請う", none, v5),
            r("乞うた", "乞う", none, v5),
            r("恋うた", "恋う", none, v5),
            r("問うた", "問う", none, v5),
            r("負うた", "負う", none, v5),
            r("沿うた", "沿う", none, v5),
            r("添うた", "添う", none, v5),
            r("副うた", "副う", none, v5),
            r("厭うた", "厭う", none, v5),
            r("のたもうた", "のたまう", none, v5),
        ],
    };
    assert(group@ =~= past_rules());
    group
}

/// The rules that undo the polite form.
pub open spec fn polite_rules() -> Seq<Rule> {
    seq![
        rule(Reasons::POLITE, "ます", "る", 0, Rules::V1),
        rule(Reasons::POLITE, "います", "う", 0, Rules::V5),
        rule(Reasons::POLITE, "きます", "く", 0, Rules::V5),
        rule(Reasons::POLITE, "ぎます", "ぐ", 0, Rules::V5),
        rule(Reasons::POLITE, "します", "す", 0, Rules::V5),
        rule(Reasons::POLITE, "ちます", "つ", 0, Rules::V5),
        rule(Reasons::POLITE, "にます", "ぬ", 0, Rules::V5),
        rule(Reasons::POLITE, "びます", "ぶ", 0, Rules::V5),
        rule(Reasons::POLITE, "みます", "む", 0, Rules::V5),
        rule(Reasons::POLITE, "ります", "る", 0, Rules::V5),
        rule(Reasons::POLITE, "じます", "ずる", 0, Rules::VZ),
        rule(Reasons::POLITE, "します", "する", 0, Rules::VS),
        rule(Reasons::POLITE, "為ます", "為る", 0, Rules::VS),
        rule(Reasons::POLITE, "きます", "くる", 0, Rules::VK),
        rule(Reasons::POLITE, "来ます", "来る", 0, Rules::VK),
        rule(Reasons::POLITE, "來ます", "來る", 0, Rules::VK),
    ]
}

/// Builds the group of `polite_rules`.
fn polite() -> (group: InflectionRules)
    ensures
        group.reason@ == Reasons::POLITE,
        group@ == polite_rules(),
{
    let none = Rules::empty();
    let v1 = Rules::from_bits_retain(Rules::V1);
    let v5 = Rules::from_bits_retain(Rules::V5);
    let vs = Rules::from_bits_retain(Rules::VS);
    let vk = Rules::from_bits_retain(Rules::VK);
    let vz = Rules::from_bits_retain(Rules::VZ);
    let group = InflectionRules {
        reason: Reasons::from_bits_retain(Reasons::POLITE),
        rules: vec![
            r("ます", "る", none, v1),
            r("います", "う", none, v5),
            r("きます", "く", none, v5),
            r("ぎます", "ぐ", none, v5),
            r("します", "す", none, v5),
            r("ちます", "つ", none, v5),
            r("にます", "ぬ", none, v5),
            r("びます", "ぶ", none, v5),
            r("みます", "む", none, v5),
            r("ります", "る", none, v5),
            r("じます", "ずる", none, vz),
            r("します", "する", none, vs),
            r("為ます", "為る", none, vs),
            r("きます", "くる", none, vk),
            r("来ます", "来る", none, vk),
            r("來ます", "來る", none, vk),
        ],
    };
    assert(group@ =~= polite_rules());
    group
}

/// The rules that undo the polite negative.
pub open spec fn polite_negative_rules() -> Seq<Rule> {
    seq![
        rule(Reasons::POLITE_NEGATIVE, "くありません", "い", 0, Rules::ADJ_I),
        rule(Reasons::POLITE_NEGATIVE, "ません", "る", 0, Rules::V1),
        rule(Reasons::POLITE_NEGATIVE, "いません", "う", 0, Rules::V5),
        rule(Reasons::POLITE_NEGATIVE, "きません", "く", 0, Rules::V5),
        rule(Reasons::POLITE_NEGATIVE, "ぎません", "ぐ", 0, Rules::V5),
        rule(Reasons::POLITE_NEGATIVE, "しません", "す", 0, Rules::V5),
        rule(Reasons::POLITE_NEGATIVE, "ちません", "つ", 0, Rules::V5),
        rule(Reasons::POLITE_NEGATIVE, "にません", "ぬ", 0, Rules::V5),
        rule(Reasons::POLITE_NEGATIVE, "びません", "ぶ", 0, Rules::V5),
        rule(Reasons::POLITE_NEGATIVE, "みません", "む", 0, Rules::V5),
        rule(Reasons::POLITE_NEGATIVE, "りません", "る", 0, Rules::V5),
        rule(Reasons::POLITE_NEGATIVE, "じません", "ずる", 0, Rules::VZ),
        rule(Reasons::POLITE_NEGATIVE, "しません", "する", 0, Rules::VS),
        rule(Reasons::POLITE_NEGATIVE, "為ません", "為る", 0, Rules::VS),
        rule(Reasons::POLITE_NEGATIVE, "きません", "くる", 0, Rules::VK),
        rule(Reasons::POLITE_NEGATIVE, "来ません", "来る", 0, Rules::VK),
        rule(Reasons::POLITE_NEGATIVE, "來ません", "來る", 0, Rules::VK),
    ]
}

/// Builds the group of `polite_negative_rules`.
fn polite_negative() -> (group: InflectionRules)
    ensures
        group.reason@ == Reasons::POLITE_NEGATIVE,
        group@ == polite_negative_rules(),
{
    let none = Rules::empty();
    let v1 = Rules::from_bits_retain(Rules::V1);
    let v5 = Rules::from_bits_retain(Rules::V5);
    let vs = Rules::from_bits_retain(Rules::VS);
    let vk = Rules::from_bits_retain(Rules::VK);
    let vz = Rules::from_bits_retain(Rules::VZ);
    let adj_i = Rules::from_bits_retain(Rules::ADJ_I);
    let group = InflectionRules {
        reason: Reasons::from_bits_retain(Reasons::POLITE_NEGATIVE),
        rules: vec![
            r("くありません", "い", none, adj_i),
            r("ません", "る", none, v1),
            r("いません", "う", none, v5),
            r("きません", "く", none, v5),
            r("ぎません", "ぐ", none, v5),
            r("しません", "す", none, v5),
            r("ちません", "つ", none, v5),
            r("にません", "ぬ", none, v5),
            r("びません", "ぶ", none, v5),
            r("みません", "む", none, v5),
            r("りません", "る", none, v5),
            r("じません", "ずる", none, vz),
            r("しません", "する", none, vs),
            r("為ません", "為る", none, vs),
            r("きません", "くる", none, vk),
            r("来ません", "来る", none, vk),
            r("來ません", "來る", none, vk),
        ],
    };
    assert(group@ =~= polite_negative_rules());
    group
}

/// The rules that undo the polite past.
pub open spec fn polite_past_rules() -> Seq<Rule> {
    seq![
        rule(Reasons::POLITE_PAST, "ました", "る", 0, Rules::V1),
        rule(Reasons::POLITE_PAST, "いました", "う", 0, Rules::V5),
        rule(Reasons::POLITE_PAST, "きました", "く", 0, Rules::V5),
        rule(Reasons::POLITE_PAST, "ぎました", "ぐ", 0, Rules::V5),
        rule(Reasons::POLITE_PAST, "しました", "す", 0, Rules::V5),
        rule(Reasons::POLITE_PAST, "ちました", "つ", 0, Rules::V5),
        rule(Reasons::POLITE_PAST, "にました", "ぬ", 0, Rules::V5),
        rule(Reasons::POLITE_PAST, "びました", "ぶ", 0, Rules::V5),
        rule(Reasons::POLITE_PAST, "みました", "む", 0, Rules::V5),
        rule(Reasons::POLITE_PAST, "りました", "る", 0, Rules::V5),
        rule(Reasons::POLITE_PAST, "じました", "ずる", 0, Rules::VZ),
        rule(Reasons::POLITE_PAST, "しました", "する", 0, Rules::VS),
        rule(Reasons::POLITE_PAST, "為ました", "為る", 0, Rules::VS),
        rule(Reasons::POLITE_PAST, "きました", "くる", 0, Rules::VK),
        rule(Reasons::POLITE_PAST, "来ました", "来る", 0, Rules::VK),
        rule(Reasons::POLITE_PAST, "來ました", "來る", 0, Rules::VK),
    ]
}

/// Builds the group of `polite_past_rules`.
fn polite_past() -> (group: InflectionRules)
    ensures
        group.reason@ == Reasons::POLITE_PAST,
        group@ == polite_past_rules(),
{
    let none = Rules::empty();
    let v1 = Rules::from_bits_retain(Rules::V1);
    let v5 = Rules::from_bits_retain(Rules::V5);
    let vs = Rules::from_bits_retain(Rules::VS);
    let vk = Rules::from_bits_retain(Rules::VK);
    let vz = Rules::from_bits_retain(Rules::VZ);
    let group = InflectionRules {
        reason: Reasons::from_bits_retain(Reasons::POLITE_PAST),
        rules: vec![
            r("ました", "る", none, v1),
            r("いました", "う", none, v5),
            r("きました", "く", none, v5),
            r("ぎました", "ぐ", none, v5),
            r("しました", "す", none, v5),
            r("ちました", "つ", none, v5),
            r("にました", "ぬ", none, v5),
            r("びました", "ぶ", none, v5),
            r("みました", "む", none, v5),
            r("りました", "る", none, v5),
            r("じました", "ずる", none, vz),
            r("しました", "する", none, vs),
            r("為ました", "為る", none, vs),
            r("きました", "くる", none, vk),
            r("来ました", "来る", none, vk),
            r("來ました", "來る", none, vk),
        ],
    };
    assert(group@ =~= polite_past_rules());
    group
}

/// The rules that undo the polite past negative.
pub open spec fn polite_past_negative_rules() -> Seq<Rule> {
    seq![
        rule(Reasons::POLITE_PAST_NEGATIVE, "くありませんでした", "い", 0, Rules::ADJ_I),
        rule(Reasons::POLITE_PAST_NEGATIVE, "ませんでした", "る", 0, Rules::V1),
        rule(Reasons::POLITE_PAST_NEGATIVE, "いませんでした", "う", 0, Rules::V5),
        rule(Reasons::POLITE_PAST_NEGATIVE, "きませんでした", "く", 0, Rules::V5),
        rule(Reasons::POLITE_PAST_NEGATIVE, "ぎませんでした", "ぐ", 0, Rules::V5),
        rule(Reasons::POLITE_PAST_NEGATIVE, "しませんでした", "す", 0, Rules::V5),
        rule(Reasons::POLITE_PAST_NEGATIVE, "ちませんでした", "つ", 0, Rules::V5),
        rule(Reasons::POLITE_PAST_NEGATIVE, "にませんでした", "ぬ", 0, Rules::V5),
        rule(Reasons::POLITE_PAST_NEGATIVE, "びませんでした", "ぶ", 0, Rules::V5),
        rule(Reasons::POLITE_PAST_NEGATIVE, "みませんでした", "む", 0, Rules::V5),
        rule(Reasons::POLITE_PAST_NEGATIVE, "りませんでした", "る", 0, Rules::V5),
        rule(Reasons::POLITE_PAST_NEGATIVE, "じませんでした", "ずる", 0, Rules::VZ),
        rule(Reasons::POLITE_PAST_NEGATIVE, "しませんでした", "する", 0, Rules::VS),
        rule(Reasons::POLITE_PAST_NEGATIVE, "為ませんでした", "為る", 0, Rules::VS),
        rule(Reasons::POLITE_PAST_NEGATIVE, "きませんでした", "くる", 0, Rules::VK),
        rule(Reasons::POLITE_PAST_NEGATIVE, "来ませんでした", "来る", 0, Rules::VK),
        rule(Reasons::POLITE_PAST_NEGATIVE, "來ませんでした", "來る", 0, Rules::VK),
    ]
}

/// Builds the group of `polite_past_negative_rules`.
fn polite_past_negative() -> (group: InflectionRules)
    ensures
        group.reason@ == Reasons::POLITE_PAST_NEGATIVE,
        group@ == polite_past_negative_rules(),
{
    let none = Rules::empty();
    let v1 = Rules::from_bits_retain(Rules::V1);
    let v5 = Rules::from_bits_retain(Rules::V5);
    let vs = Rules::from_bits_retain(Rules::VS);
    let vk = Rules::from_bits_retain(Rules::VK);
    let vz = Rules::from_bits_retain(Rules::VZ);
    let adj_i = Rules::from_bits_retain(Rules::ADJ_I);
    let group = InflectionRules {
        reason: Reasons::from_bits_retain(Reasons::POLITE_PAST_NEGATIVE),
        rules: vec![
            r("くありませんでした", "い", none, adj_i),
            r("ませんでした", "る", none, v1),
            r("いませんでした", "う", none, v5),
            r("きませんでした", "く", none, v5),
            r("ぎませんでした", "ぐ", none, v5),
            r("しませんでした", "す", none, v5),
            r("ちませんでした", "つ", none, v5),
            r("にませんでした", "ぬ", none, v5),
            r("びませんでした", "ぶ", none, v5),
            r("みませんでした", "む", none, v5),
            r("りませんでした", "る", none, v5),
            r("じませんでした", "ずる", none, vz),
            r("しませんでした", "する", none, vs),
            r("為ませんでした", "為る", none, vs),
            r("きませんでした", "くる", none, vk),
            r("来ませんでした", "来る", none, vk),
            r("來ませんでした", "來る", none, vk),
        ],
    };
    assert(group@ =~= polite_past_negative_rules());
    group
}

/// The rules that undo the polite volitional.
pub open spec fn polite_volitional_rules() -> Seq<Rule> {
    seq![
        rule(Reasons::POLITE_VOLITIONAL, "ましょう", "る", 0, Rules::V1),
        rule(Reasons::POLITE_VOLITIONAL, "いましょう", "う", 0, Rules::V5),
        rule(Reasons::POLITE_VOLITIONAL, "きましょう", "く", 0, Rules::V5),
        rule(Reasons::POLITE_VOLITIONAL, "ぎましょう", "ぐ", 0, Rules::V5),
        rule(Reasons::POLITE_VOLITIONAL, "しましょう", "す", 0, Rules::V5),
        rule(Reasons::POLITE_VOLITIONAL, "ちましょう", "つ", 0, Rules::V5),
        rule(Reasons::POLITE_VOLITIONAL, "にましょう", "ぬ", 0, Rules::V5),
        rule(Reasons::POLITE_VOLITIONAL, "びましょう", "ぶ", 0, Rules::V5),
        rule(Reasons::POLITE_VOLITIONAL, "みましょう", "む", 0, Rules::V5),
        rule(Reasons::POLITE_VOLITIONAL, "りましょう", "る", 0, Rules::V5),
        rule(Reasons::POLITE_VOLITIONAL, "じましょう", "ずる", 0, Rules::VZ),
        rule(Reasons::POLITE_VOLITIONAL, "しましょう", "する", 0, Rules::VS),
        rule(Reasons::POLITE_VOLITIONAL, "為ましょう", "為る", 0, Rules::VS),
        rule(Reasons::POLITE_VOLITIONAL, "きましょう", "くる", 0, Rules::VK),
        rule(Reasons::POLITE_VOLITIONAL, "来ましょう", "来る", 0, Rules::VK),
        rule(Reasons::POLITE_VOLITIONAL, "來ましょう", "來る", 0, Rules::VK),
    ]
}

/// Builds the group of `polite_volitional_rules`.
fn polite_volitional() -> (group: InflectionRules)
    ensures
        group.reason@ == Reasons::POLITE_VOLITIONAL,
        group@ == polite_volitional_rules(),
{
    let none = Rules::empty();
    let v1 = Rules::from_bits_retain(Rules::V1);
    let v5 = Rules::from_bits_retain(Rules::V5);
    let vs = Rules::from_bits_retain(Rules::VS);
    let vk = Rules::from_bits_retain(Rules::VK);
    let vz = Rules::from_bits_retain(Rules::VZ);
    let group = InflectionRules {
        reason: Reasons::from_bits_retain(Reasons::POLITE_VOLITIONAL),
        rules: vec![
            r("ましょう", "る", none, v1),
            r("いましょう", "う", none, v5),
            r("きましょう", "く", none, v5),
            r("ぎましょう", "ぐ", none, v5),
            r("しましょう", "す", none, v5),
            r("ちましょう", "つ", none, v5),
            r("にましょう", "ぬ", none, v5),
            r("びましょう", "ぶ", none, v5),
            r("みましょう", "む", none, v5),
            r("りましょう", "る", none, v5),
            r("じましょう", "ずる", none, vz),
            r("しましょう", "する", none, vs),
            r("為ましょう", "為る", none, vs),
            r("きましょう", "くる", none, vk),
            r("来ましょう", "来る", none, vk),
            r("來ましょう", "來る", none, vk),
        ],
    };
    assert(group@ =~= polite_volitional_rules());
    group
}

/// The rules that undo the potential.
pub open spec fn potential_rules() -> Seq<Rule> {
    seq![
        rule(Reasons::POTENTIAL, "える", "う", Rules::V1, Rules::V5),
        rule(Reasons::POTENTIAL, "ける", "く", Rules::V1, Rules::V5),
        rule(Reasons::POTENTIAL, "げる", "ぐ", Rules::V1, Rules::V5),
        rule(Reasons::POTENTIAL, "せる", "す", Rules::V1, Rules::V5),
        rule(Reasons::POTENTIAL, "てる", "つ", Rules::V1, Rules::V5),
        rule(Reasons::POTENTIAL, "ねる", "ぬ", Rules::V1, Rules::V5),
        rule(Reasons::POTENTIAL, "べる", "ぶ", Rules::V1, Rules::V5),
        rule(Reasons::POTENTIAL, "める", "む", Rules::V1, Rules::V5),
        rule(Reasons::POTENTIAL, "れる", "る", Rules::V1, V1_V5),
        rule(Reasons::POTENTIAL, "これる", "くる", Rules::V1, Rules::VK),
        rule(Reasons::POTENTIAL, "来れる", "来る", Rules::V1, Rules::VK),
        rule(Reasons::POTENTIAL, "來れる", "來る", Rules::V1, Rules::VK),
    ]
}

/// Builds the group of `potential_rules`.
fn potential() -> (group: InflectionRules)
    ensures
        group.reason@ == Reasons::POTENTIAL,
        group@ == potential_rules(),
{
    let v1 = Rules::from_bits_retain(Rules::V1);
    let v5 = Rules::from_bits_retain(Rules::V5);
    let vk = Rules::from_bits_retain(Rules::VK);
    let v1_v5 = Rules::from_bits_retain(V1_V5);
    let group = InflectionRules {
        reason: Reasons::from_bits_retain(Reasons::POTENTIAL),
        rules: vec![
            r("える", "う", v1, v5),
            r("ける", "く", v1, v5),
            r("げる", "ぐ", v1, v5),
            r("せる", "す", v1, v5),
            r("てる", "つ", v1, v5),
            r("ねる", "ぬ", v1, v5),
            r("べる", "ぶ", v1, v5),
            r("める", "む", v1, v5),
            r("れる", "る", v1, v1_v5),
            r("これる", "くる", v1, vk),
            r("来れる", "来る", v1, vk),
            r("來れる", "來る", v1, vk),
        ],
    };
    assert(group@ =~= potential_rules());
    group
}

/// The rules that undo the form that is both potential and passive.
pub open spec fn potential_or_passive_rules() -> Seq<Rule> {
    seq![
        rule(Reasons::POTENTIAL_OR_PASSIVE, "られる", "る", Rules::V1, Rules::V1),
        rule(Reasons::POTENTIAL_OR_PASSIVE, "ざれる", "ずる", Rules::V1, Rules::VZ),
        rule(Reasons::POTENTIAL_OR_PASSIVE, "ぜられる", "ずる", Rules::V1, Rules::VZ),
        rule(Reasons::POTENTIAL_OR_PASSIVE, "せられる", "する", Rules::V1, Rules::VS),
        rule(Reasons::POTENTIAL_OR_PASSIVE, "為られる", "為る", Rules::V1, Rules::VS),
        rule(Reasons::POTENTIAL_OR_PASSIVE, "こられる", "くる", Rules::V1, Rules::VK),
        rule(Reasons::POTENTIAL_OR_PASSIVE, "来られる", "来る", Rules::V1, Rules::VK),
        rule(Reasons::POTENTIAL_OR_PASSIVE, "來られる", "來る", Rules::V1, Rules::VK),
    ]
}

/// Builds the group of `potential_or_passive_rules`.
fn potential_or_passive() -> (group: InflectionRules)
    ensures
        group.reason@ == Reasons::POTENTIAL_OR_PASSIVE,
        group@ == potential_or_passive_rules(),
{
    let v1 = Rules::from_bits_retain(Rules::V1);
    let vs = Rules::from_bits_retain(Rules::VS);
    let vk = Rules::from_bits_retain(Rules::VK);
    let vz = Rules::from_bits_retain(Rules::VZ);
    let group = InflectionRules {
        reason: Reasons::from_bits_retain(Reasons::POTENTIAL_OR_PASSIVE),
        rules: vec![
            r("られる", "る", v1, v1),
            r("ざれる", "ずる", v1, vz),
            r("ぜられる", "ずる", v1, vz),
            r("せられる", "する", v1, vs),
            r("為られる", "為る", v1, vs),
            r("こられる", "くる", v1, vk),
            r("来られる", "来る", v1, vk),
            r("來られる", "來る", v1, vk),
        ],
    };
    assert(group@ =~= potential_or_passive_rules());
    group
}

/// The rules that undo the volitional.
pub open spec fn volitional_rules() -> Seq<Rule> {
    seq![
        rule(Reasons::VOLITIONAL, "よう", "る", 0, Rules::V1),
        rule(Reasons::VOLITIONAL, "おう", "う", 0, Rules::V5),
        rule(Reasons::VOLITIONAL, "こう", "く", 0, Rules::V5),
        rule(Reasons::VOLITIONAL, "ごう", "ぐ", 0, Rules::V5),
        rule(Reasons::VOLITIONAL, "そう", "す", 0, Rules::V5),
        rule(Reasons::VOLITIONAL, "とう", "つ", 0, Rules::V5),
        rule(Reasons::VOLITIONAL, "のう", "ぬ", 0, Rules::V5),
        rule(Reasons::VOLITIONAL, "ぼう", "ぶ", 0, Rules::V5),
        rule(Reasons::VOLITIONAL, "もう", "む", 0, Rules::V5),
        rule(Reasons::VOLITIONAL, "ろう", "る", 0, Rules::V5),
        rule(Reasons::VOLITIONAL, "じよう", "ずる", 0, Rules::VZ),
        rule(Reasons::VOLITIONAL, "しよう", "する", 0, Rules::VS),
        rule(Reasons::VOLITIONAL, "為よう", "為る", 0, Rules::VS),
        rule(Reasons::VOLITIONAL, "こよう", "くる", 0, Rules::VK),
        rule(Reasons::VOLITIONAL, "来よう", "来る", 0, Rules::VK),
        rule(Reasons::VOLITIONAL, "來よう", "來る", 0, Rules::VK),
    ]
}

/// Builds the group of `volitional_rules`.
fn volitional() -> (group: InflectionRules)
    ensures
        group.reason@ == Reasons::VOLITIONAL,
        group@ == volitional_rules(),
{
    let none = Rules::empty();
    let v1 = Rules::from_bits_retain(Rules::V1);
    let v5 = Rules::from_bits_retain(Rules::V5);
    let vs = Rules::from_bits_retain(Rules::VS);
    let vk = Rules::from_bits_retain(Rules::VK);
    let vz = Rules::from_bits_retain(Rules::VZ);
    let group = InflectionRules {
        reason: Reasons::from_bits_retain(Reasons::VOLITIONAL),
        rules: vec![
            r("よう", "る", none, v1),
            r("おう", "う", none, v5),
            r("こう", "く", none, v5),
            r("ごう", "ぐ", none, v5),
            r("そう", "す", none, v5),
            r("とう", "つ", none, v5),
            r("のう", "ぬ", none, v5),
            r("ぼう", "ぶ", none, v5),
            r("もう", "む", none, v5),
            r("ろう", "る", none, v5),
            r("じよう", "ずる", none, vz),
            r("しよう", "する", none, vs),
            r("為よう", "為る", none, vs),
            r("こよう", "くる", none, vk),
            r("来よう", "来る", none, vk),
            r("來よう", "來る", none, vk),
        ],
    };
    assert(group@ =~= volitional_rules());
    group
}

/// The rules that undo the causative passive.
pub open spec fn causative_passive_rules() -> Seq<Rule> {
    seq![
        rule(Reasons::CAUSATIVE_PASSIVE, "かされる", "く", Rules::V1, Rules::V5),
        rule(Reasons::CAUSATIVE_PASSIVE, "がされる", "ぐ", Rules::V1, Rules::V5),
        rule(Reasons::CAUSATIVE_PASSIVE, "たされる", "つ", Rules::V1, Rules::V5),
        rule(Reasons::CAUSATIVE_PASSIVE, "なされる", "ぬ", Rules::V1, Rules::V5),
        rule(Reasons::CAUSATIVE_PASSIVE, "ばされる", "ぶ", Rules::V1, Rules::V5),
        rule(Reasons::CAUSATIVE_PASSIVE, "まされる", "む", Rules::V1, Rules::V5),
        rule(Reasons::CAUSATIVE_PASSIVE, "らされる", "る", Rules::V1, Rules::V5),
        rule(Reasons::CAUSATIVE_PASSIVE, "わされる", "う", Rules::V1, Rules::V5),
    ]
}

/// Builds the group of `causative_passive_rules`.
fn causative_passive() -> (group: InflectionRules)
    ensures
        group.reason@ == Reasons::CAUSATIVE_PASSIVE,
        group@ == causative_passive_rules(),
{
    let v1 = Rules::from_bits_retain(Rules::V1);
    let v5 = Rules::from_bits_retain(Rules::V5);
    let group = InflectionRules {
        reason: Reasons::from_bits_retain(Reasons::CAUSATIVE_PASSIVE),
        rules: vec![
            r("かされる", "く", v1, v5),
            r("がされる", "ぐ", v1, v5),
            r("たされる", "つ", v1, v5),
            r("なされる", "ぬ", v1, v5),
            r("ばされる", "ぶ", v1, v5),
            r("まされる", "む", v1, v5),
            r("らされる", "る", v1, v5),
            r("わされる", "う", v1, v5),
        ],
    };
    assert(group@ =~= causative_passive_rules());
    group
}

/// The rules that undo the contraction -toku.
pub open spec fn toku_rules() -> Seq<Rule> {
    seq![
        rule(Reasons::TOKU, "とく", "る", Rules::V5, Rules::V1),
        rule(Reasons::TOKU, "いとく", "く", Rules::V5, Rules::V5),
        rule(Reasons::TOKU, "いどく", "ぐ", Rules::V5, Rules::V5),
        rule(Reasons::TOKU, "しとく", "す", Rules::V5, Rules::V5),
        rule(Reasons::TOKU, "っとく", "う", Rules::V5, Rules::V5),
        rule(Reasons::TOKU, "っとく", "つ", Rules::V5, Rules::V5),
        rule(Reasons::TOKU, "っとく", "る", Rules::V5, Rules::V5),
        rule(Reasons::TOKU, "んどく", "ぬ", Rules::V5, Rules::V5),
        rule(Reasons::TOKU, "んどく", "ぶ", Rules::V5, Rules::V5),
        rule(Reasons::TOKU, "んどく", "む", Rules::V5, Rules::V5),
        rule(Reasons::TOKU, "じとく", "ずる", Rules::V5, Rules::VZ),
        rule(Reasons::TOKU, "しとく", "する", Rules::V5, Rules::VS),
        rule(Reasons::TOKU, "為とく", "為る", Rules::V5, Rules::VS),
        rule(Reasons::TOKU, "きとく", "くる", Rules::V5, Rules::VK),
        rule(Reasons::TOKU, "来とく", "来る", Rules::V5, Rules::VK),
        rule(Reasons::TOKU, "來とく", "來る", Rules::V5, Rules::VK),
    ]
}

/// Builds the group of `toku_rules`.
fn toku() -> (group: InflectionRules)
    ensures
        group.reason@ == Reasons::TOKU,
        group@ == toku_rules(),
{
    let v1 = Rules::from_bits_retain(Rules::V1);
    let v5 = Rules::from_bits_retain(Rules::V5);
    let vs = Rules::from_bits_retain(Rules::VS);
    let vk = Rules::from_bits_retain(Rules::VK);
    let vz = Rules::from_bits_retain(Rules::VZ);
    let group = InflectionRules {
        reason: Reasons::from_bits_retain(Reasons::TOKU),
        rules: vec![
            r("とく", "る", v5, v1),
            r("いとく", "く", v5, v5),
            r("いどく", "ぐ", v5, v5),
            r("しとく", "す", v5, v5),
            r("っとく", "う", v5, v5),
            r("っとく", "つ", v5, v5),
            r("っとく", "る", v5, v5),
            r("んどく", "ぬ", v5, v5),
            r("んどく", "ぶ", v5, v5),
            r("んどく", "む", v5, v5),
            r("じとく", "ずる", v5, vz),
            r("しとく", "する", v5, vs),
            r("為とく", "為る", v5, vs),
            r("きとく", "くる", v5, vk),
            r("来とく", "来る", v5, vk),
            r("來とく", "來る", v5, vk),
        ],
    };
    assert(group@ =~= toku_rules());
    group
}

/// The rules that undo the progressive or perfect in -te iru.
pub open spec fn progressive_or_perfect_rules() -> Seq<Rule> {
    seq![
        rule(Reasons::PROGRESSIVE_OR_PERFECT, "ている", "て", Rules::V1, Rules::IRU),
        rule(Reasons::PROGRESSIVE_OR_PERFECT, "ておる", "て", Rules::V5, Rules::IRU),
        rule(Reasons::PROGRESSIVE_OR_PERFECT, "てる", "て", Rules::V1, Rules::IRU),
        rule(Reasons::PROGRESSIVE_OR_PERFECT, "でいる", "で", Rules::V1, Rules::IRU),
        rule(Reasons::PROGRESSIVE_OR_PERFECT, "でおる", "で", Rules::V5, Rules::IRU),
        rule(Reasons::PROGRESSIVE_OR_PERFECT, "でる", "で", Rules::V1, Rules::IRU),
        rule(Reasons::PROGRESSIVE_OR_PERFECT, "とる", "て", Rules::V5, Rules::IRU),
        rule(Reasons::PROGRESSIVE_OR_PERFECT, "ないでいる", "ない", Rules::V1, Rules::ADJ_I),
    ]
}

/// Builds the group of `progressive_or_perfect_rules`.
fn progressive_or_perfect() -> (group: InflectionRules)
    ensures
        group.reason@ == Reasons::PROGRESSIVE_OR_PERFECT,
        group@ == progressive_or_perfect_rules(),
{
    let v1 = Rules::from_bits_retain(Rules::V1);
    let v5 = Rules::from_bits_retain(Rules::V5);
    let adj_i = Rules::from_bits_retain(Rules::ADJ_I);
    let iru = Rules::from_bits_retain(Rules::IRU);
    let group = InflectionRules {
        reason: Reasons::from_bits_retain(Reasons::PROGRESSIVE_OR_PERFECT),
        rules: vec![
            r("ている", "て", v1, iru),
            r("ておる", "て", v5, iru),
            r("てる", "て", v1, iru),
            r("でいる", "で", v1, iru),
            r("でおる", "で", v5, iru),
            r("でる", "で", v1, iru),
            r("とる", "て", v5, iru),
            r("ないでいる", "ない", v1, adj_i),
        ],
    };
    assert(group@ =~= progressive_or_perfect_rules());
    group
}

/// The rules that undo the attributive in -ki.
pub open spec fn ki_rules() -> Seq<Rule> {
    seq![
        rule(Reasons::KI, "き", "い", 0, Rules::ADJ_I),
    ]
}

/// Builds the group of `ki_rules`.
fn ki() -> (group: InflectionRules)
    ensures
        group.reason@ == Reasons::KI,
        group@ == ki_rules(),
{
    let none = Rules::empty();
    let adj_i = Rules::from_bits_retain(Rules::ADJ_I);
    let group = InflectionRules {
        reason: Reasons::from_bits_retain(Reasons::KI),
        rules: vec![
            r("き", "い", none, adj_i),
        ],
    };
    assert(group@ =~= ki_rules());
    group
}

/// The rules that undo the appearance form in -ge.
pub open spec fn ge_rules() -> Seq<Rule> {
    seq![
        rule(Reasons::GE, "しげ", "しい", 0, Rules::ADJ_I),
    ]
}

/// Builds the group of `ge_rules`.
fn ge() -> (group: InflectionRules)
    ensures
        group.reason@ == Reasons::GE,
        group@ == ge_rules(),
{
    let none = Rules::empty();
    let adj_i = Rules::from_bits_retain(Rules::ADJ_I);
    let group = InflectionRules {
        reason: Reasons::from_bits_retain(Reasons::GE),
        rules: vec![
            r("しげ", "しい", none, adj_i),
        ],
    };
    assert(group@ =~= ge_rules());
    group
}

/// The rules that undo the colloquial ending -e.
pub open spec fn e_rules() -> Seq<Rule> {
    seq![
        rule(Reasons::E, "ねえ", "ない", 0, Rules::ADJ_I),
        rule(Reasons::E, "めえ", "むい", 0, Rules::ADJ_I),
        rule(Reasons::E, "みい", "むい", 0, Rules::ADJ_I),
        rule(Reasons::E, "ちぇえ", "つい", 0, Rules::ADJ_I),
        rule(Reasons::E, "ちい", "つい", 0, Rules::ADJ_I),
        rule(Reasons::E, "せえ", "すい", 0, Rules::ADJ_I),
        rule(Reasons::E, "ええ", "いい", 0, Rules::ADJ_I),
        rule(Reasons::E, "ええ", "わい", 0, Rules::ADJ_I),
        rule(Reasons::E, "ええ", "よい", 0, Rules::ADJ_I),
        rule(Reasons::E, "いぇえ", "よい", 0, Rules::ADJ_I),
        rule(Reasons::E, "うぇえ", "わい", 0, Rules::ADJ_I),
        rule(Reasons::E, "けえ", "かい", 0, Rules::ADJ_I),
        rule(Reasons::E, "げえ", "がい", 0, Rules::ADJ_I),
        rule(Reasons::E, "げえ", "ごい", 0, Rules::ADJ_I),
        rule(Reasons::E, "せえ", "さい", 0, Rules::ADJ_I),
        rule(Reasons::E, "めえ", "まい", 0, Rules::ADJ_I),
        rule(Reasons::E, "ぜえ", "ずい", 0, Rules::ADJ_I),
        rule(Reasons::E, "っぜえ", "ずい", 0, Rules::ADJ_I),
        rule(Reasons::E, "れえ", "らい", 0, Rules::ADJ_I),
        rule(Reasons::E, "ちぇえ", "ちゃい", 0, Rules::ADJ_I),
        rule(Reasons::E, "でえ", "どい", 0, Rules::ADJ_I),
        rule(Reasons::E, "れえ", "れい", 0, Rules::ADJ_I),
        rule(Reasons::E, "べえ", "ばい", 0, Rules::ADJ_I),
        rule(Reasons::E, "てえ", "たい", 0, Rules::ADJ_I),
        rule(Reasons::E, "ねぇ", "ない", 0, Rules::ADJ_I),
        rule(Reasons::E, "めぇ", "むい", 0, Rules::ADJ_I),
        rule(Reasons::E, "みぃ", "むい", 0, Rules::ADJ_I),
        rule(Reasons::E, "ちぇぇ", "つい", 0, Rules::ADJ_I),
        rule(Reasons::E, "ちぃ", "つい", 0, Rules::ADJ_I),
        rule(Reasons::E, "せぇ", "すい", 0, Rules::ADJ_I),
        rule(Reasons::E, "えぇ", "いい", 0, Rules::ADJ_I),
        rule(Reasons::E, "えぇ", "わい", 0, Rules::ADJ_I),
        rule(Reasons::E, "えぇ", "よい", 0, Rules::ADJ_I),
        rule(Reasons::E, "いぇぇ", "よい", 0, Rules::ADJ_I),
        rule(Reasons::E, "うぇぇ", "わい", 0, Rules::ADJ_I),
        rule(Reasons::E, "けぇ", "かい", 0, Rules::ADJ_I),
        rule(Reasons::E, "げぇ", "がい", 0, Rules::ADJ_I),
        rule(Reasons::E, "げぇ", "ごい", 0, Rules::ADJ_I),
        rule(Reasons::E, "せぇ", "さい", 0, Rules::ADJ_I),
        rule(Reasons::E, "めぇ", "まい", 0, Rules::ADJ_I),
        rule(Reasons::E, "ぜぇ", "ずい", 0, Rules::ADJ_I),
        rule(Reasons::E, "っぜぇ", "ずい", 0, Rules::ADJ_I),
        rule(Reasons::E, "れぇ", "らい", 0, Rules::ADJ_I),
        rule(Reasons::E, "ちぇぇ", "ちゃい", 0, Rules::ADJ_I),
        rule(Reasons::E, "でぇ", "どい", 0, Rules::ADJ_I),
        rule(Reasons::E, "れぇ", "れい", 0, Rules::ADJ_I),
        rule(Reasons::E, "べぇ", "ばい", 0, Rules::ADJ_I),
        rule(Reasons::E, "てぇ", "たい", 0, Rules::ADJ_I),
    ]
}

/// Builds the group of `e_rules`.
fn e() -> (group: InflectionRules)
    ensures
        group.reason@ == Reasons::E,
        group@ == e_rules(),
{
    let none = Rules::empty();
    let adj_i = Rules::from_bits_retain(Rules::ADJ_I);
    let group = InflectionRules {
        reason: Reasons::from_bits_retain(Reasons::E),
        rules: vec![
            r("ねえ", "ない", none, adj_i),
            r("めえ", "むい", none, adj_i),
            r("みい", "むい", none, adj_i),
            r("ちぇえ", "つい", none, adj_i),
            r("ちい", "つい", none, adj_i),
            r("せえ", "すい", none, adj_i),
            r("ええ", "いい", none, adj_i),
            r("ええ", "わい", none, adj_i),
            r("ええ", "よい", none, adj_i),
            r("いぇえ", "よい", none, adj_i),
            r("うぇえ", "わい", none, adj_i),
            r("けえ", "かい", none, adj_i),
            r("げえ", "がい", none, adj_i),
            r("げえ", "ごい", none, adj_i),
            r("せえ", "さい", none, adj_i),
            r("めえ", "まい", none, adj_i),
            r("ぜえ", "ずい", none, adj_i),
            r("っぜえ", "ずい", none, adj_i),
            r("れえ", "らい", none, adj_i),
            r("ちぇえ", "ちゃい", none, adj_i),
            r("でえ", "どい", none, adj_i),
            r("れえ", "れい", none, adj_i),
            r("べえ", "ばい", none, adj_i),
            r("てえ", "たい", none, adj_i),
            r("ねぇ", "ない", none, adj_i),
            r("めぇ", "むい", none, adj_i),
            r("みぃ", "むい", none, adj_i),
            r("ちぇぇ", "つい", none, adj_i),
            r("ちぃ", "つい", none, adj_i),
            r("せぇ", "すい", none, adj_i),
            r("えぇ", "いい", none, adj_i),
            r("えぇ", "わい", none, adj_i),
            r("えぇ", "よい", none, adj_i),
            r("いぇぇ", "よい", none, adj_i),
            r("うぇぇ", "わい", none, adj_i),
            r("けぇ", "かい", none, adj_i),
            r("げぇ", "がい", none, adj_i),
            r("げぇ", "ごい", none, adj_i),
            r("せぇ", "さい", none, adj_i),
            r("めぇ", "まい", none, adj_i),
            r("ぜぇ", "ずい", none, adj_i),
            r("っぜぇ", "ずい", none, adj_i),
            r("れぇ", "らい", none, adj_i),
            r("ちぇぇ", "ちゃい", none, adj_i),
            r("でぇ", "どい", none, adj_i),
            r("れぇ", "れい", none, adj_i),
            r("べぇ", "ばい", none, adj_i),
            r("てぇ", "たい", none, adj_i),
        ],
    };
    assert(group@ =~= e_rules());
    group
}

/// The rules of the table's groups, group by group, in the order of the
/// reasons' bits.
pub open spec fn groups() -> Seq<Seq<Rule>> {
    seq![
        ba_rules(),
        chau_rules(),
        chimau_rules(),
        shimau_rules(),
        nasai_rules(),
        sou_rules(),
        sugiru_rules(),
        tai_rules(),
        tara_rules(),
        tari_rules(),
        te_rules(),
        zu_rules(),
        nu_rules(),
        adv_rules(),
        causative_rules(),
        imperative_rules(),
        imperative_negative_rules(),
        masu_stem_rules(),
        negative_rules(),
        noun_rules(),
        passive_rules(),
        past_rules(),
        polite_rules(),
        polite_negative_rules(),
        polite_past_rules(),
        polite_past_negative_rules(),
        polite_volitional_rules(),
        potential_rules(),
        potential_or_passive_rules(),
        volitional_rules(),
        causative_passive_rules(),
        toku_rules(),
        progressive_or_perfect_rules(),
        ki_rules(),
        ge_rules(),
        e_rules(),
    ]
}

/// The reasons of the table's groups, in the order of the groups.
pub open spec fn group_reasons() -> Seq<u64> {
    seq![
        Reasons::BA,
        Reasons::CHAU,
        Reasons::CHIMAU,
        Reasons::SHIMAU,
        Reasons::NASAI,
        Reasons::SOU,
        Reasons::SUGIRU,
        Reasons::TAI,
        Reasons::TARA,
        Reasons::TARI,
        Reasons::TE,
        Reasons::ZU,
        Reasons::NU,
        Reasons::ADV,
        Reasons::CAUSATIVE,
        Reasons::IMPERATIVE,
        Reasons::IMPERATIVE_NEGATIVE,
        Reasons::MASU_STEM,
        Reasons::NEGATIVE,
        Reasons::NOUN,
        Reasons::PASSIVE,
        Reasons::PAST,
        Reasons::POLITE,
        Reasons::POLITE_NEGATIVE,
        Reasons::POLITE_PAST,
        Reasons::POLITE_PAST_NEGATIVE,
        Reasons::POLITE_VOLITIONAL,
        Reasons::POTENTIAL,
        Reasons::POTENTIAL_OR_PASSIVE,
        Reasons::VOLITIONAL,
        Reasons::CAUSATIVE_PASSIVE,
        Reasons::TOKU,
        Reasons::PROGRESSIVE_OR_PERFECT,
        Reasons::KI,
        Reasons::GE,
        Reasons::E,
    ]
}

/// Whether `table` is the built-in table: it has the groups of `groups`,
/// each with its reason.
pub open spec fn built_in(table: Seq<InflectionRules>) -> bool {
    &&& table.len() == groups().len()
    &&& forall|g: int| 0 <= g < table.len() ==> (#[trigger] table[g])@ == groups()[g]
    &&& forall|g: int| 0 <= g < table.len() ==> (#[trigger] table[g]).reason@ == group_reasons()[g]
}

/// Builds the group at index `g` of the table.
fn group(g: usize) -> (group: InflectionRules)
    requires
        g < groups().len(),
    ensures
        group@ == groups()[g as int],
        group.reason@ == group_reasons()[g as int],
{
    match g {
        0 => ba(),
        1 => chau(),
        2 => chimau(),
        3 => shimau(),
        4 => nasai(),
        5 => sou(),
        6 => sugiru(),
        7 => tai(),
        8 => tara(),
        9 => tari(),
        10 => te(),
        11 => zu(),
        12 => nu(),
        13 => adv(),
        14 => causative(),
        15 => imperative(),
        16 => imperative_negative(),
        17 => masu_stem(),
        18 => negative(),
        19 => noun(),
        20 => passive(),
        21 => past(),
        22 => polite(),
        23 => polite_negative(),
        24 => polite_past(),
        25 => polite_past_negative(),
        26 => polite_volitional(),
        27 => potential(),
        28 => potential_or_passive(),
        29 => volitional(),
        30 => causative_passive(),
        31 => toku(),
        32 => progressive_or_perfect(),
        33 => ki(),
        34 => ge(),
        _ => e(),
    }
}

/// The built-in table: its rules are those of `groups`, group after
/// group, and every group gives its reason.
pub fn inflection_rules() -> (table: Vec<InflectionRules>)
    ensures
        built_in(table@),
        table_rules(table@, table@.len()) == joined(groups(), groups().len()),
        forall|g: int| 0 <= g < table@.len() ==> (#[trigger] table@[g]).reason@ != 0,
{
    let mut table: Vec<InflectionRules> = Vec::new();
    let mut g: usize = 0;
    while g < 36
        invariant
            g <= 36,
            groups().len() == 36,
            table@.len() == g,
            forall|j: int| 0 <= j < g ==> (#[trigger] table@[j])@ == groups()[j],
            forall|j: int| 0 <= j < g ==> (#[trigger] table@[j]).reason@ == group_reasons()[j],
            forall|j: int| 0 <= j < g ==> (#[trigger] table@[j]).reason@ != 0,
        decreases 36 - g,
    {
        let next = group(g);
        assert(group_reasons()[g as int] != 0);
        table.push(next);
        g = g + 1;
    }
    proof {
        lemma_table_joined(table@, groups(), 36);
    }
    table
}

} // verus!
