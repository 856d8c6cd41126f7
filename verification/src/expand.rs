//! The expansion of a word into its candidates.
//!
//! The arena starts with the word itself. Each candidate in turn is read
//! backward against the index, and every rule found there that its classes
//! allow adds a candidate at the end of the arena, which is visited later in
//! the same way.

use vstd::prelude::*;
use vstd::slice::{slice_subrange, slice_to_vec};
use crate::flags::{compatible, Reasons, Rules};
use crate::forest::{Candidate, Deinflection, DeinflectionSource, Deinflections, Forest};
use crate::index::{rules_of, Info};
use crate::laws::lemma_root_first;
use crate::rules::Rule;
use crate::text::chars_of;
use crate::tree::{pointed, Tree};

verus! {

/// The candidate that stands for the word itself.
pub open spec fn root() -> Candidate {
    Candidate {
        source: DeinflectionSource::Original,
        removed: 0,
        replacement: Seq::empty(),
        rules: 0,
        reasons: 0,
    }
}

/// The candidate that `rule` makes from the candidate `prev` at index
/// `parent`: the rule's two endings say what is taken off and put on, its
/// classes replace those of `prev`, its reason is added to those of `prev`.
pub open spec fn apply_rule(parent: int, prev: Candidate, rule: Rule) -> Candidate {
    Candidate {
        source: DeinflectionSource::Deinflection(parent as usize),
        removed: rule.input.len(),
        replacement: rule.output,
        rules: rule.rules_out,
        reasons: prev.reasons | rule.reason,
    }
}

/// The candidates that `rules` make from `prev`, one for each rule that
/// the classes of `prev` allow, in the order of the rules.
pub open spec fn apply_rules(parent: int, prev: Candidate, rules: Seq<Rule>) -> Seq<Candidate>
    decreases rules.len(),
{
    if rules.len() == 0 {
        Seq::empty()
    } else {
        let before = apply_rules(parent, prev, rules.drop_last());
        if compatible(prev.rules, rules.last().rules_in) {
            before.push(apply_rule(parent, prev, rules.last()))
        } else {
            before
        }
    }
}

impl Forest {
    /// The rules whose inflected ending the text of candidate `i` ends in:
    /// a shorter ending first, equal endings in the order of the table.
    pub open spec fn matches(self, tree: Tree<Info>, i: int) -> Seq<Rule> {
        rules_of(tree.submatches(self.text(i).reverse()))
    }

    /// The candidates made from candidate `i`.
    pub open spec fn children(self, tree: Tree<Info>, i: int) -> Seq<Candidate> {
        apply_rules(i, self.candidates[i], self.matches(tree, i))
    }

    /// The root followed by the children of the first `n` candidates.
    pub open spec fn expansion(self, tree: Tree<Info>, n: nat) -> Seq<Candidate>
        decreases n,
    {
        if n == 0 {
            seq![root()]
        } else {
            self.expansion(tree, (n - 1) as nat) + self.children(tree, n - 1)
        }
    }

    /// The arena is closed under the rules of `tree`: it is the root
    /// followed by the children of each of its candidates, in order.
    pub open spec fn expanded(self, tree: Tree<Info>) -> bool {
        self.candidates == self.expansion(tree, self.candidates.len())
    }

    /// `other` has the same word and starts with the same `n` candidates.
    pub open spec fn agrees(self, other: Forest, n: int) -> bool {
        &&& self.word == other.word
        &&& n <= self.candidates.len()
        &&& n <= other.candidates.len()
        &&& forall|k: int| 0 <= k < n ==> self.candidates[k] == other.candidates[k]
    }
}

/// A candidate's text depends on the word and on the candidates up to it.
pub proof fn lemma_text_agrees(f: Forest, g: Forest, n: int, k: int)
    requires
        f.wf(),
        f.agrees(g, n),
        0 <= k < n,
    ensures
        g.text(k) == f.text(k),
    decreases k,
{
    match f.candidates[k].source {
        DeinflectionSource::Original => {},
        DeinflectionSource::Deinflection(p) => {
            lemma_text_agrees(f, g, n, p as int);
        },
    }
}

/// The expansion up to `n` depends on the word and on the first `n`
/// candidates.
pub proof fn lemma_expansion_agrees(f: Forest, g: Forest, tree: Tree<Info>, n: nat)
    requires
        f.wf(),
        f.agrees(g, n as int),
    ensures
        g.expansion(tree, n) == f.expansion(tree, n),
    decreases n,
{
    if n > 0 {
        lemma_expansion_agrees(f, g, tree, (n - 1) as nat);
        lemma_text_agrees(f, g, n as int, n - 1);
    }
}

impl Deinflections {
    /// All candidates for `word` under the rules of `tree`.
    ///
    /// The candidates need not be words: look them up in a dictionary.
    ///
    /// Each index is visited once, and a vector holds at most `usize::MAX`
    /// elements, so the visits end. With a table in which compatible rules
    /// can follow each other without end, the arena grows until memory
    /// runs out.
    pub fn from_word(tree: &Tree<Info>, word: &str) -> (this: Self)
        requires
            tree.wf(),
        ensures
            this.wf(),
            this@.word == word@,
            this@.expanded(*tree),
            this@.candidates.len() >= 1,
            this@.candidates[0] == root(),
    {
        Deinflections::from_chars(tree, chars_of(word))
    }

    /// As `from_word`, for a word given by its characters.
    fn from_chars(tree: &Tree<Info>, word: Vec<char>) -> (this: Self)
        requires
            tree.wf(),
        ensures
            this.wf(),
            this@.word == word@,
            this@.expanded(*tree),
            this@.candidates.len() >= 1,
            this@.candidates[0] == root(),
    {
        let ghost given = word@;
        let mut this = Deinflections::over(word);
        proof {
            reveal_strlit("");
        }
        this.push_counted(DeinflectionSource::Original, 0, "", 0, Rules::empty(), Reasons::empty());
        assert(""@ =~= Seq::<char>::empty());
        let mut i: usize = 0;
        while i < this.len()
            invariant
                tree.wf(),
                this.wf(),
                this@.word == given,
                i <= this@.candidates.len(),
                this@.candidates == this@.expansion(*tree, i as nat),
            decreases usize::MAX - i,
        {
            let handle = Deinflection::at(i);
            let prev = this.data(handle);
            let class = prev.rules();
            let reasons = prev.reasons();
            let ghost prev = prev@;
            let ghost start = this@;
            let found = {
                let mut chars = this.chars_rev(handle);
                tree.get_submatches(&mut chars)
            };
            let ghost rules = rules_of(pointed(found@));
            let mut j: usize = 0;
            while j < found.len()
                invariant
                    this.wf(),
                    this@.word == start.word,
                    i < start.candidates.len(),
                    prev == start.candidates[i as int],
                    class@ == prev.rules,
                    reasons@ == prev.reasons,
                    j <= found@.len(),
                    rules == rules_of(pointed(found@)),
                    this@.candidates == start.candidates + apply_rules(
                        i as int,
                        prev,
                        rules.take(j as int),
                    ),
                decreases found@.len() - j,
            {
                let info = found[j];
                let rule = info.rule();
                proof {
                    assert(rules.take(j + 1).drop_last() =~= rules.take(j as int));
                }
                if class.is_empty() || class.intersects(rule.rules_in) {
                    this.push_counted(
                        DeinflectionSource::Deinflection(i),
                        info.kana_in_chars(),
                        rule.kana_out,
                        info.kana_out_chars(),
                        rule.rules_out,
                        reasons.union(info.reason()),
                    );
                    assert(this@.candidates =~= start.candidates + apply_rules(
                        i as int,
                        prev,
                        rules.take(j + 1),
                    ));
                }
                j = j + 1;
            }
            proof {
                assert(rules.take(j as int) =~= rules);
                lemma_expansion_agrees(start, this@, *tree, (i + 1) as nat);
            }
            i = i + 1;
        }
        proof {
            lemma_root_first(this@, *tree);
        }
        this
    }

    /// The candidates for `s` and for each shorter beginning of `s` down
    /// to its first character: the element at index `k` is for `s` without
    /// its last `k` characters. The arenas do not depend on each other.
    pub fn from_str(tree: &Tree<Info>, s: &str) -> (all: Vec<Deinflections>)
        requires
            tree.wf(),
        ensures
            all@.len() == s@.len(),
            forall|k: int|
                0 <= k < all@.len() ==> {
                    let this = #[trigger] all@[k];
                    &&& this.wf()
                    &&& this@.word == s@.take(s@.len() - k)
                    &&& this@.expanded(*tree)
                },
    {
        let chars = chars_of(s);
        let n = chars.len();
        let mut all: Vec<Deinflections> = Vec::new();
        let mut k: usize = 0;
        while k < n
            invariant
                tree.wf(),
                chars@ == s@,
                n == chars@.len(),
                k <= n,
                all@.len() == k,
                forall|m: int|
                    0 <= m < all@.len() ==> {
                        let this = #[trigger] all@[m];
                        &&& this.wf()
                        &&& this@.word == s@.take(s@.len() - m)
                        &&& this@.expanded(*tree)
                    },
            decreases n - k,
        {
            let word = slice_to_vec(slice_subrange(chars.as_slice(), 0, n - k));
            all.push(Deinflections::from_chars(tree, word));
            k = k + 1;
        }
        all
    }
}

} // verus!
