//! What holds of every expansion, whatever the word and the index.

use vstd::prelude::*;
use crate::expand::{apply_rule, apply_rules, lemma_text_agrees, root};
use crate::flags::compatible;
use crate::forest::{Candidate, DeinflectionSource, Forest};
use crate::index::{
    ends_in, indexes, lemma_ending_is_matched, lemma_match_ends_text, lemma_submatch_stored,
    reasoned, rules_of, Info,
};
use crate::rules::{table_rules, InflectionRules, Rule};
use crate::tree::Tree;

verus! {

/// Each candidate among `apply_rules(parent, prev, rules)` is made by one of
/// the rules, and that rule is allowed by the classes of `prev`. Returns
/// the index of the rule that makes the candidate at `m`.
pub proof fn lemma_applied_rule(parent: int, prev: Candidate, rules: Seq<Rule>, m: int) -> (j:
    int)
    requires
        0 <= m < apply_rules(parent, prev, rules).len(),
    ensures
        0 <= j < rules.len(),
        compatible(prev.rules, rules[j].rules_in),
        apply_rules(parent, prev, rules)[m] == apply_rule(parent, prev, rules[j]),
    decreases rules.len(),
{
    let before = apply_rules(parent, prev, rules.drop_last());
    if compatible(prev.rules, rules.last().rules_in) && m == before.len() {
        rules.len() - 1
    } else {
        lemma_applied_rule(parent, prev, rules.drop_last(), m)
    }
}

/// A candidate of no class is extended by every rule.
pub proof fn lemma_all_apply(parent: int, prev: Candidate, rules: Seq<Rule>)
    requires
        prev.rules == 0,
    ensures
        apply_rules(parent, prev, rules).len() == rules.len(),
    decreases rules.len(),
{
    if rules.len() > 0 {
        lemma_all_apply(parent, prev, rules.drop_last());
    }
}

/// The expansion only grows: up to `n` it is the beginning of what it is
/// up to any later `k`. It always holds the root.
pub proof fn lemma_expansion_grows(f: Forest, tree: Tree<Info>, n: nat, k: nat)
    requires
        n <= k,
    ensures
        1 <= f.expansion(tree, n).len() <= f.expansion(tree, k).len(),
        f.expansion(tree, k).take(f.expansion(tree, n).len() as int) == f.expansion(tree, n),
        f.expansion(tree, n)[0] == root(),
    decreases k,
{
    if n == 0 && k == 0 {
    } else if n == k {
        lemma_expansion_grows(f, tree, (n - 1) as nat, (n - 1) as nat);
    } else {
        lemma_expansion_grows(f, tree, n, (k - 1) as nat);
    }
}

/// Every entry of the expansion but the root is a child of an earlier
/// index. Returns that index and the index of the rule among its matches.
pub proof fn lemma_expansion_element(f: Forest, tree: Tree<Info>, k: nat, m: int) -> (at: (
    int,
    int,
))
    requires
        1 <= m < f.expansion(tree, k).len(),
    ensures
        0 <= at.0 < k,
        f.expansion(tree, at.0 as nat).len() <= m < f.expansion(tree, (at.0 + 1) as nat).len(),
        0 <= at.1 < f.matches(tree, at.0).len(),
        compatible(f.candidates[at.0].rules, f.matches(tree, at.0)[at.1].rules_in),
        f.expansion(tree, k)[m] == apply_rule(
            at.0,
            f.candidates[at.0],
            f.matches(tree, at.0)[at.1],
        ),
    decreases k,
{
    if k == 0 {
        (0, 0)
    } else {
        let before = f.expansion(tree, (k - 1) as nat);
        if m < before.len() {
            lemma_expansion_element(f, tree, (k - 1) as nat, m)
        } else {
            let j = lemma_applied_rule(
                k - 1,
                f.candidates[k - 1],
                f.matches(tree, k - 1),
                m - before.len(),
            );
            (k - 1, j)
        }
    }
}

/// In an expanded arena every candidate was reached: when the children of
/// the first `n` candidates have been added, candidate `n` is there.
pub proof fn lemma_reached(f: Forest, tree: Tree<Info>, n: nat)
    requires
        f.wf(),
        f.expanded(tree),
        n < f.candidates.len(),
    ensures
        f.expansion(tree, n).len() > n,
{
    let m = f.expansion(tree, n).len() as int;
    lemma_expansion_grows(f, tree, n, f.candidates.len());
    if m <= n {
        let at = lemma_expansion_element(f, tree, f.candidates.len(), m);
        lemma_expansion_grows(f, tree, (at.0 + 1) as nat, n);
    }
}

/// The first candidate of an expanded arena is the word itself, unchanged
/// and with no class and no reason.
pub proof fn lemma_root_first(f: Forest, tree: Tree<Info>)
    requires
        f.expanded(tree),
    ensures
        f.candidates.len() >= 1,
        f.candidates[0] == root(),
        f.text(0) == f.word,
{
    lemma_expansion_grows(f, tree, 0, f.candidates.len());
}

/// Every candidate of an expanded arena but the first is made from an
/// earlier candidate `p` by a rule: one of those that match the text of
/// `p`, and one that the classes of `p` allow. Its classes are those that
/// the rule gives, its reasons those of `p` and the rule's. Returns `p` and
/// the index of the rule among the matches of `p`.
pub proof fn lemma_candidate_origin(f: Forest, tree: Tree<Info>, m: int) -> (at: (int, int))
    requires
        f.wf(),
        f.expanded(tree),
        1 <= m < f.candidates.len(),
    ensures
        0 <= at.0 < m,
        0 <= at.1 < f.matches(tree, at.0).len(),
        compatible(f.candidates[at.0].rules, f.matches(tree, at.0)[at.1].rules_in),
        f.candidates[m] == apply_rule(at.0, f.candidates[at.0], f.matches(tree, at.0)[at.1]),
        f.candidates[m].source == DeinflectionSource::Deinflection(at.0 as usize),
{
    lemma_expansion_element(f, tree, f.candidates.len(), m)
}

/// Among `apply_rules(parent, prev, rules)` there is a candidate for every
/// rule that the classes of `prev` allow. Returns its index.
pub proof fn lemma_allowed_rule_applies(parent: int, prev: Candidate, rules: Seq<Rule>, j: int) -> (m:
    int)
    requires
        0 <= j < rules.len(),
        compatible(prev.rules, rules[j].rules_in),
    ensures
        0 <= m < apply_rules(parent, prev, rules).len(),
        apply_rules(parent, prev, rules)[m] == apply_rule(parent, prev, rules[j]),
    decreases rules.len(),
{
    if j == rules.len() - 1 {
        apply_rules(parent, prev, rules.drop_last()).len() as int
    } else {
        lemma_allowed_rule_applies(parent, prev, rules.drop_last(), j)
    }
}

/// An expanded arena leaves nothing out: every rule that matches the text
/// of a candidate, and that the candidate's classes allow, has made a
/// candidate from it. Returns the index of that candidate.
pub proof fn lemma_match_gives_candidate(f: Forest, tree: Tree<Info>, i: int, j: int) -> (m: int)
    requires
        f.wf(),
        f.expanded(tree),
        0 <= i < f.candidates.len(),
        0 <= j < f.matches(tree, i).len(),
        compatible(f.candidates[i].rules, f.matches(tree, i)[j].rules_in),
    ensures
        i < m < f.candidates.len(),
        f.candidates[m] == apply_rule(i, f.candidates[i], f.matches(tree, i)[j]),
{
    let k = lemma_allowed_rule_applies(i, f.candidates[i], f.matches(tree, i), j);
    lemma_reached(f, tree, i as nat);
    lemma_expansion_grows(f, tree, (i + 1) as nat, f.candidates.len());
    let before = f.expansion(tree, i as nat);
    let with = f.expansion(tree, (i + 1) as nat);
    let m = before.len() + k;
    assert(with[m] == f.children(tree, i)[k]);
    assert(f.candidates.take(with.len() as int)[m] == f.candidates[m]);
    m
}

/// Under the index of a table, every rule of the table whose inflected
/// ending the text of a candidate ends in, and that the candidate's classes
/// allow, has made a candidate from it: one whose text is that of the first
/// with the ending replaced by the rule's other ending, with the classes
/// that the rule gives and the reasons of both. Returns its index.
pub proof fn lemma_ending_gives_candidate(
    f: Forest,
    tree: Tree<Info>,
    table: Seq<InflectionRules>,
    i: int,
    t: int,
) -> (m: int)
    requires
        f.wf(),
        f.expanded(tree),
        indexes(tree, table),
        0 <= i < f.candidates.len(),
        0 <= t < table_rules(table, table.len()).len(),
        ends_in(f.text(i), table_rules(table, table.len())[t].input),
        compatible(f.candidates[i].rules, table_rules(table, table.len())[t].rules_in),
    ensures
        i < m < f.candidates.len(),
        f.candidates[m] == apply_rule(i, f.candidates[i], table_rules(table, table.len())[t]),
        ({
            let rule = table_rules(table, table.len())[t];
            let from = f.text(i);
            f.text(m) == from.take(from.len() - rule.input.len()) + rule.output
        }),
{
    let j = lemma_ending_is_matched(tree, table, f.text(i), t);
    lemma_match_gives_candidate(f, tree, i, j)
}

/// Under the index of a table, every candidate of an expanded arena but the
/// first undoes one rule of the table on an earlier candidate `p`: the text
/// of `p` ends in the rule's inflected ending, and the candidate's text is
/// that of `p` with this ending replaced by the rule's other ending. The
/// classes of `p` allow the rule, the candidate has the classes that the
/// rule gives and the reasons of `p` with the rule's. Returns `p` and the
/// rule's index in the table.
pub proof fn lemma_candidate_undoes_rule(
    f: Forest,
    tree: Tree<Info>,
    table: Seq<InflectionRules>,
    m: int,
) -> (at: (int, int))
    requires
        f.wf(),
        f.expanded(tree),
        indexes(tree, table),
        1 <= m < f.candidates.len(),
    ensures
        0 <= at.0 < m,
        0 <= at.1 < table_rules(table, table.len()).len(),
        f.candidates[m].source == DeinflectionSource::Deinflection(at.0 as usize),
        ({
            let rule = table_rules(table, table.len())[at.1];
            let from = f.text(at.0);
            &&& ends_in(from, rule.input)
            &&& f.text(m) == from.take(from.len() - rule.input.len()) + rule.output
            &&& compatible(f.candidates[at.0].rules, rule.rules_in)
            &&& f.candidates[m].rules == rule.rules_out
            &&& f.candidates[m].reasons == f.candidates[at.0].reasons | rule.reason
        }),
{
    let origin = lemma_candidate_origin(f, tree, m);
    let t = lemma_match_ends_text(tree, table, f.text(origin.0), origin.1);
    (origin.0, t)
}

/// Expanding a word is a function of the word and the index: two expanded
/// arenas for the same word under the same index hold the same candidates
/// in the same order.
pub proof fn lemma_expansion_unique(f: Forest, g: Forest, tree: Tree<Info>)
    requires
        f.wf(),
        g.wf(),
        f.word == g.word,
        f.expanded(tree),
        g.expanded(tree),
    ensures
        f == g,
{
    let a = f.candidates.len();
    let b = g.candidates.len();
    if a <= b {
        lemma_expansions_agree(f, g, tree, a);
        if a < b {
            lemma_reached(g, tree, a);
        }
    } else {
        lemma_expansions_agree(f, g, tree, b);
        lemma_reached(f, tree, b);
    }
}

/// Two expanded arenas for one word have the same expansion up to any `n`
/// that is an index or the length of both.
proof fn lemma_expansions_agree(f: Forest, g: Forest, tree: Tree<Info>, n: nat)
    requires
        f.wf(),
        g.wf(),
        f.word == g.word,
        f.expanded(tree),
        g.expanded(tree),
        n <= f.candidates.len(),
        n <= g.candidates.len(),
    ensures
        f.expansion(tree, n) == g.expansion(tree, n),
    decreases n,
{
    if n > 0 {
        let k = (n - 1) as nat;
        lemma_expansions_agree(f, g, tree, k);
        lemma_reached(f, tree, k);
        lemma_reached(g, tree, k);
        lemma_expansion_grows(f, tree, k, f.candidates.len());
        lemma_expansion_grows(g, tree, k, g.candidates.len());
        let shared = f.expansion(tree, k);
        assert forall|i: int| 0 <= i < n implies f.candidates[i] == g.candidates[i] by {
            assert(f.candidates[i] == f.candidates.take(shared.len() as int)[i]);
        }
        lemma_text_agrees(f, g, n as int, k as int);
    }
}

impl Forest {
    /// Whether candidate `i` is candidate `a` or was made from it, in one
    /// step or in several.
    pub open spec fn descends(self, i: int, a: int) -> bool
        decreases i,
    {
        i == a || match self.candidates[i].source {
            DeinflectionSource::Original => false,
            DeinflectionSource::Deinflection(p) => 0 <= i < self.candidates.len() && p < i
                && self.descends(p as int, a),
        }
    }
}

/// Whether the bits of `part` are all among those of `whole`.
pub open spec fn within(part: u64, whole: u64) -> bool {
    part & whole == part
}

/// Reasons are gathered and never lost: a candidate of an expanded arena
/// has every reason of the candidate it was made from, and of each one
/// further up.
pub proof fn lemma_reasons_grow(f: Forest, tree: Tree<Info>, i: int, a: int)
    requires
        f.wf(),
        f.expanded(tree),
        0 <= i < f.candidates.len(),
        f.descends(i, a),
    ensures
        within(f.candidates[a].reasons, f.candidates[i].reasons),
    decreases i,
{
    let top = f.candidates[a].reasons;
    if i == a {
        assert(top & top == top) by (bit_vector);
    } else {
        lemma_root_first(f, tree);
        let at = lemma_candidate_origin(f, tree, i);
        lemma_reasons_grow(f, tree, at.0, a);
        let mid = f.candidates[at.0].reasons;
        let added = f.matches(tree, at.0)[at.1].reason;
        assert(top & (mid | added) == top) by (bit_vector)
            requires
                top & mid == top,
        ;
    }
}

/// Where every rule gives a reason, the word itself is the one candidate
/// of an expanded arena that has no reason: it stands first, and its text
/// is the word.
pub proof fn lemma_one_unchanged(f: Forest, tree: Tree<Info>)
    requires
        f.wf(),
        f.expanded(tree),
        reasoned(tree),
    ensures
        f.candidates.len() >= 1,
        f.text(0) == f.word,
        forall|m: int|
            0 <= m < f.candidates.len() ==> ((#[trigger] f.candidates[m]).reasons == 0 <==> m
                == 0),
{
    lemma_root_first(f, tree);
    assert forall|m: int| 1 <= m < f.candidates.len() implies (#[trigger] f.candidates[m]).reasons
        != 0 by {
        let at = lemma_candidate_origin(f, tree, m);
        let s = f.text(at.0).reverse();
        lemma_submatch_stored(tree, s, s.len(), at.1);
        let added = f.matches(tree, at.0)[at.1].reason;
        let above = f.candidates[at.0].reasons;
        assert(above | added != 0) by (bit_vector)
            requires
                added != 0,
        ;
    }
}

/// A word that no rule matches has no candidate but itself, and a word
/// that some rule matches has more.
pub proof fn lemma_alone_without_match(f: Forest, tree: Tree<Info>)
    requires
        f.wf(),
        f.expanded(tree),
    ensures
        f.candidates.len() == 1 <==> rules_of(tree.submatches(f.word.reverse())).len() == 0,
{
    lemma_root_first(f, tree);
    let rules = f.matches(tree, 0);
    lemma_all_apply(0, root(), rules);
    assert(f.expansion(tree, 0).len() == 1);
    if f.candidates.len() > 1 {
        lemma_reached(f, tree, 1);
    }
}

} // verus!
