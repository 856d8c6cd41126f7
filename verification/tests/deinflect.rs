use deinflect::{
    inflection_rules, lookup_tree, r, CharSource, Deinflection, DeinflectionSource, Deinflections,
    Info, InflectionRules, Reasons, Rules, SliceChars, Tree,
};

fn built_in() -> Tree<Info> {
    lookup_tree(&inflection_rules())
}

fn assert_includes(deinflections: &[Deinflections], s: impl AsRef<str>) {
    let s = s.as_ref();
    assert!(deinflections
        .iter()
        .any(|d| d.iter().into_iter().any(|f| d.to_string(f).as_str() == s)));
}

/// Every candidate as (text, class bits, reason bits, parent).
fn listing(d: &Deinflections) -> Vec<(String, u8, u64, Option<usize>)> {
    d.iter()
        .into_iter()
        .map(|h| {
            let data = d.data(h);
            let parent = match data.source {
                DeinflectionSource::Original => None,
                DeinflectionSource::Deinflection(p) => Some(p),
            };
            (d.to_string(h), data.rules.bits(), data.reasons.bits(), parent)
        })
        .collect()
}

fn find(d: &Deinflections, text: &str) -> Vec<Deinflection> {
    d.iter()
        .into_iter()
        .filter(|h| d.to_string(*h) == text)
        .collect()
}

#[test]
fn deinflections() {
    let d = Deinflections::from_str(&built_in(), "聞かれました");

    assert_includes(&d, "聞かれる");
    assert_includes(&d, "聞く");
}

#[test]
fn polite_past_of_an_ichidan_verb() {
    let d = Deinflections::from_word(&built_in(), "食べました");
    let found = find(&d, "食べる");
    assert!(found.iter().any(|h| {
        let data = d.data(*h);
        data.reasons == Reasons::from_bits_retain(Reasons::POLITE_PAST)
            && data.rules == Rules::from_bits_retain(Rules::V1)
    }));
}

#[test]
fn passive_is_reached_through_the_polite_past() {
    let d = Deinflections::from_word(&built_in(), "聞かれました");
    let list = listing(&d);
    let between = list
        .iter()
        .position(|c| c.0 == "聞かれる" && c.2 == Reasons::POLITE_PAST)
        .expect("the plain passive form is a candidate");
    assert_eq!(list[between].1, Rules::V1);
    assert_eq!(list[between].3, Some(0));
    let last = list
        .iter()
        .position(|c| c.0 == "聞く" && c.3 == Some(between))
        .expect("the dictionary form is made from the passive form");
    assert_eq!(list[last].1, Rules::V5);
    assert_eq!(list[last].2, Reasons::POLITE_PAST | Reasons::PASSIVE);
    assert!(last > between);
}

#[test]
fn class_of_suru_is_not_reached_from_suta() {
    let vs = Rules::from_bits_retain(Rules::VS);
    for d in Deinflections::from_str(&built_in(), "すた") {
        for h in d.iter() {
            let data = d.data(h);
            let fits = data.rules.is_empty() || data.rules.contains(vs);
            assert!(!(d.to_string(h) == "する" && fits));
        }
    }
}

#[test]
fn appearance_form_is_undone_after_shi_only() {
    let tree = built_in();
    let adj_i = Rules::from_bits_retain(Rules::ADJ_I);
    let d = Deinflections::from_word(&tree, "愛しげ");
    assert!(find(&d, "愛しい").iter().any(|h| {
        let data = d.data(*h);
        data.rules == adj_i && data.reasons == Reasons::from_bits_retain(Reasons::GE)
    }));
    for word in ["かわいげ", "可愛げ"] {
        for d in Deinflections::from_str(&tree, word) {
            for h in d.iter() {
                let text = d.to_string(h);
                assert!(text != "かわいい" && text != "可愛い", "{word}");
            }
        }
    }
}

#[test]
fn a_word_that_no_rule_matches_stands_alone() {
    let tree = built_in();
    for word in ["ABC", "猫", "", "東京都"] {
        let d = Deinflections::from_word(&tree, word);
        assert_eq!(d.len(), 1, "{word}");
        let root = d.iter()[0];
        assert_eq!(d.to_string(root), word);
        let data = d.data(root);
        assert!(matches!(data.source, DeinflectionSource::Original));
        assert!(data.rules.is_empty());
        assert!(data.reasons.is_empty());
    }
}

#[test]
fn only_the_word_itself_has_no_reason() {
    let tree = built_in();
    for word in ["食べました", "聞かれました", "愛しくありませんでした", "すた", "猫", "行った"] {
        let list = listing(&Deinflections::from_word(&tree, word));
        let unchanged: Vec<usize> = (0..list.len())
            .filter(|i| list[*i].2 == 0 && list[*i].0 == word)
            .collect();
        assert_eq!(unchanged, vec![0], "{word}");
        assert!(list.iter().skip(1).all(|c| c.2 != 0), "{word}");
        assert_eq!(list[0].1, 0);
        assert_eq!(list[0].3, None);
    }
}

#[test]
fn reasons_are_never_lost_on_the_way_down() {
    let tree = built_in();
    for word in ["食べさせられたくなかった", "抱き抱えていなければ", "聞かれました"] {
        let list = listing(&Deinflections::from_word(&tree, word));
        assert!(list.len() > 1);
        for (i, c) in list.iter().enumerate().skip(1) {
            let p = c.3.expect("only the first candidate has no parent");
            assert!(p < i);
            assert_eq!(list[p].2 & c.2, list[p].2);
            assert_ne!(list[p].2, c.2);
            let mut up = p;
            while let Some(q) = list[up].3 {
                assert_eq!(list[q].2 & c.2, list[q].2);
                up = q;
            }
            assert_eq!(up, 0);
        }
    }
}

#[test]
fn expansion_is_repeatable() {
    let tree = built_in();
    let again = lookup_tree(&inflection_rules());
    for word in ["食べさせられたくなかった", "聞かれました", "論ぜさせられない", ""] {
        let a = listing(&Deinflections::from_word(&tree, word));
        let b = listing(&Deinflections::from_word(&tree, word));
        let c = listing(&Deinflections::from_word(&again, word));
        assert_eq!(a, b);
        assert_eq!(a, c);
    }
}

#[test]
fn long_chain_of_five_reasons() {
    let d = Deinflections::from_word(&built_in(), "食べさせられたくなかった");
    let want = Reasons::CAUSATIVE
        | Reasons::POTENTIAL_OR_PASSIVE
        | Reasons::TAI
        | Reasons::NEGATIVE
        | Reasons::PAST;
    assert!(listing(&d)
        .iter()
        .any(|c| c.0 == "食べる" && c.1 == Rules::V1 && c.2 == want));
}

#[test]
fn from_str_drops_one_character_at_a_time() {
    let tree = built_in();
    let all = Deinflections::from_str(&tree, "食べた");
    assert_eq!(all.len(), 3);
    let words: Vec<String> = all.iter().map(|d| d.to_string(d.iter()[0])).collect();
    assert_eq!(words, vec!["食べた", "食べ", "食"]);
    for (k, d) in all.iter().enumerate() {
        let alone = Deinflections::from_word(&tree, &words[k]);
        assert_eq!(listing(d), listing(&alone));
    }
    assert_eq!(Deinflections::from_str(&tree, "").len(), 0);
    assert_eq!(Deinflections::from_str(&tree, "a").len(), 1);
}

/// A table of two groups, small enough to write down what comes out.
fn small_table() -> Vec<InflectionRules> {
    let none = Rules::empty();
    let v1 = Rules::from_bits_retain(Rules::V1);
    let v5 = Rules::from_bits_retain(Rules::V5);
    let adj_i = Rules::from_bits_retain(Rules::ADJ_I);
    vec![
        InflectionRules {
            reason: Reasons::from_bits_retain(Reasons::PAST),
            rules: vec![
                r("った", "う", none, v5),
                r("た", "る", none, v1),
                r("かった", "い", none, adj_i),
                r("った", "る", none, v5),
            ],
        },
        InflectionRules {
            reason: Reasons::from_bits_retain(Reasons::NEGATIVE),
            rules: vec![
                r("ない", "る", adj_i, v1),
                r("わない", "う", adj_i, v5),
                r("た", "つ", v1, v5),
            ],
        },
    ]
}

#[test]
fn candidates_come_in_the_order_of_the_walk() {
    let tree = lookup_tree(&small_table());
    let d = Deinflections::from_word(&tree, "買わなかった");
    let past = Reasons::PAST;
    let both = Reasons::PAST | Reasons::NEGATIVE;
    assert_eq!(
        listing(&d),
        vec![
            ("買わなかった".to_string(), 0, 0, None),
            // the shortest ending first; the rule of the second group
            // comes after the one of the first
            ("買わなかっる".to_string(), Rules::V1, past, Some(0)),
            ("買わなかっつ".to_string(), Rules::V5, Reasons::NEGATIVE, Some(0)),
            // two characters: table order
            ("買わなかう".to_string(), Rules::V5, past, Some(0)),
            ("買わなかる".to_string(), Rules::V5, past, Some(0)),
            // three characters
            ("買わない".to_string(), Rules::ADJ_I, past, Some(0)),
            // from the adjective: the shorter ending first
            ("買わる".to_string(), Rules::V1, both, Some(5)),
            ("買う".to_string(), Rules::V5, both, Some(5)),
        ]
    );
}

#[test]
fn a_rule_needs_a_class_in_common() {
    let tree = lookup_tree(&small_table());
    // "た" -> "つ" asks for an ichidan verb: the word itself has no class
    // and takes it, the candidate of class v5 does not
    let d = Deinflections::from_word(&tree, "たった");
    let list = listing(&d);
    assert_eq!(list[1], ("たっる".to_string(), Rules::V1, Reasons::PAST, Some(0)));
    assert_eq!(list[2], ("たっつ".to_string(), Rules::V5, Reasons::NEGATIVE, Some(0)));
    assert_eq!(list[3], ("たう".to_string(), Rules::V5, Reasons::PAST, Some(0)));
    assert_eq!(list[4], ("たる".to_string(), Rules::V5, Reasons::PAST, Some(0)));
    assert_eq!(list.len(), 5);
}

#[test]
fn index_keeps_table_order_under_one_key() {
    let tree = lookup_tree(&small_table());
    let key: Vec<char> = "った".chars().collect();
    let found = tree.get_submatches(&mut SliceChars::backward(&key));
    let seen: Vec<(String, String, u64, usize, usize)> = found
        .iter()
        .map(|i| {
            (
                i.rule().kana_in.to_string(),
                i.rule().kana_out.to_string(),
                i.reason().bits(),
                i.kana_in_chars(),
                i.kana_out_chars(),
            )
        })
        .collect();
    assert_eq!(
        seen,
        vec![
            ("た".to_string(), "る".to_string(), Reasons::PAST, 1, 1),
            ("た".to_string(), "つ".to_string(), Reasons::NEGATIVE, 1, 1),
            ("った".to_string(), "う".to_string(), Reasons::PAST, 2, 1),
            ("った".to_string(), "る".to_string(), Reasons::PAST, 2, 1),
        ]
    );
}

#[test]
fn table_has_a_group_for_each_reason() {
    let table = inflection_rules();
    assert_eq!(table.len(), 36);
    for (g, group) in table.iter().enumerate() {
        assert_eq!(group.reason.bits(), 1u64 << g);
        assert!(!group.rules.is_empty());
        for rule in group.rules.iter() {
            assert!(!rule.kana_in.is_empty());
            assert!(!rule.rules_out.is_empty());
        }
    }
    assert_eq!(table.iter().map(|g| g.rules.len()).sum::<usize>(), 594);
}

#[test]
fn rule_builder_keeps_its_arguments() {
    let v1 = Rules::from_bits_retain(Rules::V1);
    let v5 = Rules::from_bits_retain(Rules::V5);
    let rule = r("かれる", "く", v1, v5);
    assert_eq!(rule.kana_in, "かれる");
    assert_eq!(rule.kana_out, "く");
    assert_eq!(rule.rules_in, v1);
    assert_eq!(rule.rules_out, v5);
    let info = Info::new(Reasons::from_bits_retain(Reasons::PASSIVE), rule);
    assert_eq!(info.kana_in_chars(), 3);
    assert_eq!(info.kana_out_chars(), 1);
    assert_eq!(info.reason().bits(), Reasons::PASSIVE);
    assert_eq!(info.rule().kana_in, "かれる");
}

#[test]
fn candidate_text_is_read_backward_without_the_dropped_tail() {
    let d = Deinflections::from_word(&built_in(), "聞かれました");
    let h = find(&d, "聞く")[0];
    let mut chars = d.chars_rev(h);
    assert_eq!(chars.next(), Some('く'));
    assert_eq!(chars.next(), Some('聞'));
    assert_eq!(chars.next(), None);
}

#[test]
fn whole_arenas() {
    let tree = built_in();
    let cases: Vec<(&str, Vec<(&str, u8, u64, Option<usize>)>)> = vec![
        (
            "食べさせられたくなかった",
            vec![
                ("食べさせられたくなかった", 0x00, 0x0, None),
                ("食べさせられたくなかっる", 0x01, 0x200000, Some(0)),
                ("食べさせられたくなかう", 0x02, 0x200000, Some(0)),
                ("食べさせられたくなかつ", 0x02, 0x200000, Some(0)),
                ("食べさせられたくなかる", 0x02, 0x200000, Some(0)),
                ("食べさせられたくない", 0x20, 0x200000, Some(0)),
                ("食べさせられたくる", 0x01, 0x240000, Some(5)),
                ("食べさせられたい", 0x20, 0x240000, Some(5)),
                ("食べさせられる", 0x01, 0x240080, Some(7)),
                ("食べさせらる", 0x03, 0x8240080, Some(8)),
                ("食べさせる", 0x02, 0x340080, Some(8)),
                ("食べさせる", 0x01, 0x10240080, Some(8)),
                ("食べさする", 0x04, 0x10240080, Some(8)),
                ("食べさす", 0x02, 0x18240080, Some(11)),
                ("食べる", 0x01, 0x10244080, Some(11)),
                ("食べす", 0x02, 0x10244080, Some(11)),
                ("食べする", 0x04, 0x10244080, Some(11)),
                ("食ぶ", 0x02, 0x18244080, Some(14)),
            ],
        ),
        (
            "聞かれました",
            vec![
                ("聞かれました", 0x00, 0x0, None),
                ("聞かれましる", 0x01, 0x200000, Some(0)),
                ("聞かれます", 0x02, 0x200000, Some(0)),
                ("聞かれまする", 0x04, 0x200000, Some(0)),
                ("聞かれる", 0x01, 0x1000000, Some(0)),
                ("聞かる", 0x03, 0x9000000, Some(4)),
                ("聞く", 0x02, 0x1100000, Some(4)),
            ],
        ),
        (
            "行って",
            vec![
                ("行って", 0x00, 0x0, None),
                ("行っる", 0x01, 0x400, Some(0)),
                ("行っつ", 0x02, 0x8000, Some(0)),
                ("行ってる", 0x01, 0x20000, Some(0)),
                ("行う", 0x02, 0x400, Some(0)),
                ("行つ", 0x02, 0x400, Some(0)),
                ("行る", 0x02, 0x400, Some(0)),
                ("行く", 0x02, 0x400, Some(0)),
                ("行っつ", 0x02, 0x8020000, Some(3)),
                ("行って", 0x40, 0x100020000, Some(3)),
                ("行っる", 0x01, 0x100020400, Some(9)),
                ("行う", 0x02, 0x100020400, Some(9)),
                ("行つ", 0x02, 0x100020400, Some(9)),
                ("行る", 0x02, 0x100020400, Some(9)),
                ("行く", 0x02, 0x100020400, Some(9)),
            ],
        ),
        (
            "すた",
            vec![
                ("すた", 0x00, 0x0, None),
                ("する", 0x01, 0x200000, Some(0)),
            ],
        ),
    ];
    for (word, want) in cases {
        let want: Vec<(String, u8, u64, Option<usize>)> = want
            .into_iter()
            .map(|c| (c.0.to_string(), c.1, c.2, c.3))
            .collect();
        assert_eq!(listing(&Deinflections::from_word(&tree, word)), want, "{word}");
    }
}
