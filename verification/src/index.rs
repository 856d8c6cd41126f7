//! The index over a table of rules: a trie keyed by each rule's inflected
//! ending read backward, so that the rules that apply to a word are found
//! by walking from the word's last character toward its first.

use vstd::prelude::*;
use vstd::string::*;
use crate::chars::SliceChars;
use crate::flags::Reasons;
use crate::rules::{keyed, rule_of, table_rules, InflectionRules, Rule, RuleInfo};
use crate::text::chars_of;
use crate::tree::{begins, Tree};

verus! {

/// What the index stores for one rule: the rule, the reason of its group,
/// and the lengths of its two endings in characters.
#[derive(Clone, Copy)]
pub struct Info {
    reason: Reasons,
    rule: RuleInfo,
    kana_in_chars: usize,
    kana_out_chars: usize,
}

impl View for Info {
    type V = Rule;

    closed spec fn view(&self) -> Rule {
        rule_of(self.reason, self.rule)
    }
}

impl Info {
    /// The stored lengths are the lengths of the endings.
    #[verifier::type_invariant]
    closed spec fn counted(self) -> bool {
        &&& self.kana_in_chars == self.rule.kana_in@.len()
        &&& self.kana_out_chars == self.rule.kana_out@.len()
    }

    /// The entry for `rule` in a group with reason `reason`.
    pub fn new(reason: Reasons, rule: RuleInfo) -> (info: Self)
        ensures
            info@ == rule_of(reason, rule),
    {
        Info {
            reason,
            rule,
            kana_in_chars: rule.kana_in.unicode_len(),
            kana_out_chars: rule.kana_out.unicode_len(),
        }
    }

    /// The reason of the rule's group.
    pub fn reason(&self) -> (reason: Reasons)
        ensures
            reason@ == self@.reason,
    {
        self.reason
    }

    /// The rule itself.
    pub fn rule(&self) -> (rule: RuleInfo)
        ensures
            rule.kana_in@ == self@.input,
            rule.kana_out@ == self@.output,
            rule.rules_in@ == self@.rules_in,
            rule.rules_out@ == self@.rules_out,
    {
        self.rule
    }

    /// The length of the inflected ending, in characters.
    pub fn kana_in_chars(&self) -> (n: usize)
        ensures
            n == self@.input.len(),
    {
        proof {
            use_type_invariant(self);
        }
        self.kana_in_chars
    }

    /// The length of the other ending, in characters.
    pub fn kana_out_chars(&self) -> (n: usize)
        ensures
            n == self@.output.len(),
    {
        proof {
            use_type_invariant(self);
        }
        self.kana_out_chars
    }
}

/// The rules that a sequence of entries stands for.
pub open spec fn rules_of(infos: Seq<Info>) -> Seq<Rule> {
    Seq::new(infos.len(), |i: int| infos[i]@)
}

/// Whether `tree` is the index of `table`: under each key it holds the
/// rules whose inflected ending, read backward, is that key, in the order
/// of the table.
pub open spec fn indexes(tree: Tree<Info>, table: Seq<InflectionRules>) -> bool {
    &&& tree.wf()
    &&& forall|key: Seq<char>|
        rules_of(#[trigger] tree.lookup(key)) == keyed(table_rules(table, table.len()), key)
    &&& forall|path: Seq<char>| #[trigger]
        tree.has_path(path) <==> path.len() == 0 || leads_to_rule(
            table_rules(table, table.len()),
            path,
        )
}

/// Whether the key of one of `rules`, its inflected ending read backward,
/// begins with `path`. The index has nodes for such paths and no others.
pub open spec fn leads_to_rule(rules: Seq<Rule>, path: Seq<char>) -> bool {
    exists|t: int| 0 <= t < rules.len() && begins((#[trigger] rules[t]).input.reverse(), path)
}

/// With one more rule, the paths that lead to a rule are those that did
/// and the beginnings of the new rule's key.
proof fn lemma_leads_push(rules: Seq<Rule>, rule: Rule, path: Seq<char>)
    ensures
        leads_to_rule(rules.push(rule), path) <==> leads_to_rule(rules, path) || begins(
            rule.input.reverse(),
            path,
        ),
{
    let more = rules.push(rule);
    if leads_to_rule(more, path) {
        let t = choose|t: int|
            0 <= t < more.len() && begins((#[trigger] more[t]).input.reverse(), path);
        if t < rules.len() {
            assert(begins(rules[t].input.reverse(), path));
        }
    }
    if leads_to_rule(rules, path) {
        let t = choose|t: int|
            0 <= t < rules.len() && begins((#[trigger] rules[t]).input.reverse(), path);
        assert(begins(more[t].input.reverse(), path));
    }
    if begins(rule.input.reverse(), path) {
        assert(begins(more[rules.len() as int].input.reverse(), path));
    }
}

/// Builds the index of a table.
pub fn lookup_tree(table: &Vec<InflectionRules>) -> (tree: Tree<Info>)
    ensures
        indexes(tree, table@),
{
    let mut tree: Tree<Info> = Tree::new();
    let mut g: usize = 0;
    assert(forall|key: Seq<char>|
        rules_of(#[trigger] tree.lookup(key)) == keyed(table_rules(table@, 0), key));
    assert(forall|path: Seq<char>| !leads_to_rule(table_rules(table@, 0), path));
    while g < table.len()
        invariant
            g <= table@.len(),
            tree.wf(),
            forall|key: Seq<char>|
                rules_of(#[trigger] tree.lookup(key)) == keyed(table_rules(table@, g as nat), key),
            forall|path: Seq<char>| #[trigger]
                tree.has_path(path) <==> path.len() == 0 || leads_to_rule(
                    table_rules(table@, g as nat),
                    path,
                ),
        decreases table@.len() - g,
    {
        let group = &table[g];
        let mut k: usize = 0;
        assert(table_rules(table@, g as nat) + group.first(0) =~= table_rules(table@, g as nat));
        while k < group.rules.len()
            invariant
                g < table@.len(),
                group == &table@[g as int],
                k <= group.rules@.len(),
                tree.wf(),
                forall|key: Seq<char>|
                    rules_of(#[trigger] tree.lookup(key)) == keyed(
                        table_rules(table@, g as nat) + group.first(k as int),
                        key,
                    ),
                forall|path: Seq<char>| #[trigger]
                    tree.has_path(path) <==> path.len() == 0 || leads_to_rule(
                        table_rules(table@, g as nat) + group.first(k as int),
                        path,
                    ),
            decreases group.rules@.len() - k,
        {
            let rule = group.rules[k];
            let info = Info::new(group.reason, rule);
            let reversed = chars_of(rule.kana_in);
            let mut chars = SliceChars::backward(reversed.as_slice());
            let ghost before = tree;
            let ghost so_far = table_rules(table@, g as nat) + group.first(k as int);
            tree.insert(&mut chars, info);
            proof {
                let all = table_rules(table@, g as nat) + group.first(k + 1);
                assert(all =~= so_far.push(info@));
                assert(all.drop_last() =~= so_far);
                assert forall|path: Seq<char>| #[trigger]
                    tree.has_path(path) <==> path.len() == 0 || leads_to_rule(all, path) by {
                    lemma_leads_push(so_far, info@, path);
                    if path.len() == 0 {
                        assert(path =~= Seq::<char>::empty());
                    }
                }
                assert forall|key: Seq<char>|
                    rules_of(#[trigger] tree.lookup(key)) == keyed(all, key) by {
                    if key == rule.kana_in@.reverse() {
                        assert(rules_of(tree.lookup(key)) =~= rules_of(before.lookup(key)).push(
                            info@,
                        ));
                    }
                }
            }
            k = k + 1;
        }
        assert(group.first(k as int) == group@);
        g = g + 1;
    }
    tree
}

/// Whether every rule that the index holds gives a reason.
pub open spec fn reasoned(tree: Tree<Info>) -> bool {
    forall|key: Seq<char>, j: int|
        0 <= j < tree.lookup(key).len() ==> (#[trigger] tree.lookup(key)[j])@.reason != 0
}

/// Each value that a walk along `s` finds is stored under a beginning of
/// `s`. Returns the length of that beginning and the place of the value
/// under it.
pub proof fn lemma_submatch_stored(tree: Tree<Info>, s: Seq<char>, n: nat, i: int) -> (at: (
    int,
    int,
))
    requires
        0 <= i < tree.root().gather(s, n).len(),
    ensures
        0 <= at.0 <= n,
        0 <= at.1 < tree.lookup(s.take(at.0)).len(),
        tree.root().gather(s, n)[i] == tree.lookup(s.take(at.0))[at.1],
    decreases n,
{
    if n == 0 {
        assert(s.take(0) =~= Seq::<char>::empty());
        (0, i)
    } else {
        let before = tree.root().gather(s, (n - 1) as nat);
        if i < before.len() {
            lemma_submatch_stored(tree, s, (n - 1) as nat, i)
        } else {
            (n as int, i - before.len())
        }
    }
}

/// What `keyed` keeps is a rule of the sequence with that key. Returns the
/// index of the rule that stands at `j` among those kept.
pub proof fn lemma_keyed_element(rules: Seq<Rule>, key: Seq<char>, j: int) -> (t: int)
    requires
        0 <= j < keyed(rules, key).len(),
    ensures
        0 <= t < rules.len(),
        rules[t] == keyed(rules, key)[j],
        rules[t].input.reverse() == key,
    decreases rules.len(),
{
    let before = keyed(rules.drop_last(), key);
    if rules.last().input.reverse() == key && j == before.len() {
        rules.len() - 1
    } else {
        lemma_keyed_element(rules.drop_last(), key, j)
    }
}

/// Each rule of a table stands in one of its groups and has the reason of
/// that group. Returns the group's index and the rule's index in it.
pub proof fn lemma_table_rule(table: Seq<InflectionRules>, n: nat, t: int) -> (at: (int, int))
    requires
        0 <= t < table_rules(table, n).len(),
    ensures
        0 <= at.0 < n,
        0 <= at.1 < table[at.0].rules@.len(),
        table_rules(table, n)[t] == rule_of(table[at.0].reason, table[at.0].rules@[at.1]),
    decreases n,
{
    if n == 0 {
        (0, 0)
    } else {
        let before = table_rules(table, (n - 1) as nat);
        if t < before.len() {
            lemma_table_rule(table, (n - 1) as nat, t)
        } else {
            (n - 1, t - before.len())
        }
    }
}

/// Each rule of a group is a rule of the table. Returns its index among
/// the rules of the first `n` groups.
pub proof fn lemma_table_holds(table: Seq<InflectionRules>, n: nat, g: int, k: int) -> (t: int)
    requires
        0 <= g < n,
        0 <= k < table[g]@.len(),
    ensures
        0 <= t < table_rules(table, n).len(),
        table_rules(table, n)[t] == table[g]@[k],
    decreases n,
{
    if g == n - 1 {
        table_rules(table, (n - 1) as nat).len() + k
    } else {
        lemma_table_holds(table, (n - 1) as nat, g, k)
    }
}

/// The index of a table in which every group gives a reason holds only
/// rules that give one.
pub proof fn lemma_index_reasoned(tree: Tree<Info>, table: Seq<InflectionRules>)
    requires
        indexes(tree, table),
        forall|g: int| 0 <= g < table.len() ==> (#[trigger] table[g]).reason@ != 0,
    ensures
        reasoned(tree),
{
    let all = table_rules(table, table.len());
    assert forall|key: Seq<char>, j: int| 0 <= j < tree.lookup(key).len() implies (
    #[trigger] tree.lookup(key)[j])@.reason != 0 by {
        let t = lemma_keyed_element(all, key, j);
        lemma_table_rule(table, table.len(), t);
    }
}

/// The rules among `all` whose inflected ending, read backward, is one of
/// the first `n + 1` beginnings of `s`: those of a shorter beginning first,
/// those of one beginning in the order of `all`.
pub open spec fn ending_rules(all: Seq<Rule>, s: Seq<char>, n: nat) -> Seq<Rule>
    decreases n,
{
    if n == 0 {
        keyed(all, Seq::empty())
    } else {
        ending_rules(all, s, (n - 1) as nat) + keyed(all, s.take(n as int))
    }
}

/// What a walk over the index of a table finds is told by the table
/// alone: for a text read backward as `s`, the rules whose inflected ending
/// the text ends in, a shorter ending before a longer one, and equal
/// endings in the order of the table.
pub proof fn lemma_matches_by_ending(tree: Tree<Info>, table: Seq<InflectionRules>, s: Seq<char>)
    requires
        indexes(tree, table),
    ensures
        rules_of(tree.submatches(s)) == ending_rules(
            table_rules(table, table.len()),
            s,
            s.len(),
        ),
{
    lemma_gathered_by_ending(tree, table, s, s.len());
}

/// As `lemma_matches_by_ending`, for the beginnings of `s` up to `n`.
proof fn lemma_gathered_by_ending(
    tree: Tree<Info>,
    table: Seq<InflectionRules>,
    s: Seq<char>,
    n: nat,
)
    requires
        indexes(tree, table),
    ensures
        rules_of(tree.root().gather(s, n)) == ending_rules(
            table_rules(table, table.len()),
            s,
            n,
        ),
    decreases n,
{
    if n > 0 {
        lemma_gathered_by_ending(tree, table, s, (n - 1) as nat);
        let before = tree.root().gather(s, (n - 1) as nat);
        let here = tree.lookup(s.take(n as int));
        assert(rules_of(before + here) =~= rules_of(before) + rules_of(here));
    }
}

/// Whether `text` ends in `ending`.
pub open spec fn ends_in(text: Seq<char>, ending: Seq<char>) -> bool {
    ending.len() <= text.len() && text.skip(text.len() - ending.len()) == ending
}

/// A key of the index is a beginning of a text read backward exactly when
/// the ending that the key stands for is an ending of the text.
pub proof fn lemma_key_is_ending(text: Seq<char>, ending: Seq<char>)
    ensures
        (ending.len() <= text.len() && ending.reverse() == text.reverse().take(
            ending.len() as int,
        )) <==> ends_in(text, ending),
{
    if ending.len() <= text.len() {
        let n = ending.len() as int;
        let tail = text.skip(text.len() - n);
        assert(tail.reverse() =~= text.reverse().take(n));
        if ending.reverse() == text.reverse().take(n) {
            assert(ending =~= ending.reverse().reverse());
            assert(tail =~= tail.reverse().reverse());
        }
    }
}

/// What a walk finds for a text is a rule of the table, and the text ends
/// in the rule's inflected ending. Returns the rule's index in the table.
pub proof fn lemma_match_ends_text(
    tree: Tree<Info>,
    table: Seq<InflectionRules>,
    text: Seq<char>,
    j: int,
) -> (t: int)
    requires
        indexes(tree, table),
        0 <= j < rules_of(tree.submatches(text.reverse())).len(),
    ensures
        0 <= t < table_rules(table, table.len()).len(),
        table_rules(table, table.len())[t] == rules_of(tree.submatches(text.reverse()))[j],
        ends_in(text, table_rules(table, table.len())[t].input),
{
    let s = text.reverse();
    let all = table_rules(table, table.len());
    let at = lemma_submatch_stored(tree, s, s.len(), j);
    let key = s.take(at.0);
    assert(rules_of(tree.lookup(key))[at.1] == tree.lookup(key)[at.1]@);
    let t = lemma_keyed_element(all, key, at.1);
    assert(all[t].input.len() == all[t].input.reverse().len());
    lemma_key_is_ending(text, all[t].input);
    t
}

/// `keyed` keeps every rule that has the key.
pub proof fn lemma_keyed_keeps(rules: Seq<Rule>, key: Seq<char>, t: int) -> (j: int)
    requires
        0 <= t < rules.len(),
        rules[t].input.reverse() == key,
    ensures
        0 <= j < keyed(rules, key).len(),
        keyed(rules, key)[j] == rules[t],
    decreases rules.len(),
{
    if t == rules.len() - 1 {
        keyed(rules.drop_last(), key).len() as int
    } else {
        lemma_keyed_keeps(rules.drop_last(), key, t)
    }
}

/// A walk along `s` finds what is stored under each beginning of `s`.
/// Returns the place among what the walk finds of the value at `j` under
/// the first `k` characters.
pub proof fn lemma_stored_is_found(tree: Tree<Info>, s: Seq<char>, n: nat, k: nat, j: int) -> (i:
    int)
    requires
        k <= n,
        0 <= j < tree.lookup(s.take(k as int)).len(),
    ensures
        0 <= i < tree.root().gather(s, n).len(),
        tree.root().gather(s, n)[i] == tree.lookup(s.take(k as int))[j],
    decreases n,
{
    if k == n {
        if n == 0 {
            assert(s.take(0) =~= Seq::<char>::empty());
            j
        } else {
            tree.root().gather(s, (n - 1) as nat).len() + j
        }
    } else {
        lemma_stored_is_found(tree, s, (n - 1) as nat, k, j)
    }
}

/// Every rule of the table whose inflected ending the text ends in is
/// found by the walk. Returns its place among what the walk finds.
pub proof fn lemma_ending_is_matched(
    tree: Tree<Info>,
    table: Seq<InflectionRules>,
    text: Seq<char>,
    t: int,
) -> (j: int)
    requires
        indexes(tree, table),
        0 <= t < table_rules(table, table.len()).len(),
        ends_in(text, table_rules(table, table.len())[t].input),
    ensures
        0 <= j < rules_of(tree.submatches(text.reverse())).len(),
        rules_of(tree.submatches(text.reverse()))[j] == table_rules(table, table.len())[t],
{
    let s = text.reverse();
    let all = table_rules(table, table.len());
    let k = all[t].input.len();
    lemma_key_is_ending(text, all[t].input);
    let key = s.take(k as int);
    let at = lemma_keyed_keeps(all, key, t);
    assert(rules_of(tree.lookup(key))[at] == tree.lookup(key)[at]@);
    lemma_stored_is_found(tree, s, s.len(), k, at)
}

} // verus!
