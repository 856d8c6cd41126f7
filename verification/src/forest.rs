//! The arena of deinflection candidates for one word, and the reading of a
//! candidate's text from its last character to its first.
//!
//! A candidate does not hold its text. It holds how many characters it
//! takes off the end of the text it was made from, and what it puts there
//! instead; the text it was made from is the word itself or the text of an
//! earlier candidate.

use vstd::prelude::*;
use vstd::string::*;
use crate::chars::CharSource;
use crate::flags::{Reasons, Rules};
use crate::text::{chars_of, string_of_reversed};

verus! {

/// What a candidate was made from.
#[derive(Debug, Clone, Copy)]
pub enum DeinflectionSource {
    /// The word that the arena was made for.
    Original,
    /// The candidate at this index of the same arena.
    Deinflection(usize),
}

/// A candidate as contracts see it.
pub struct Candidate {
    /// What the candidate was made from.
    pub source: DeinflectionSource,
    /// How many characters it takes off the end of that text.
    pub removed: nat,
    /// What it puts in their place.
    pub replacement: Seq<char>,
    /// The bits of its word classes.
    pub rules: u8,
    /// The bits of the reasons gathered on the way to it.
    pub reasons: u64,
}

/// An arena as contracts see it: the word and the candidates in order.
pub struct Forest {
    /// The word that the candidates start from.
    pub word: Seq<char>,
    /// The candidates, by index.
    pub candidates: Seq<Candidate>,
}

/// `s` without its last `n` characters; nothing is left where `s` has no
/// more than `n`.
pub open spec fn trim(s: Seq<char>, n: nat) -> Seq<char> {
    if n >= s.len() {
        Seq::empty()
    } else {
        s.take(s.len() - n)
    }
}

impl Forest {
    /// Every candidate that was made from another one comes after it, and
    /// the candidates can be counted in a `usize`.
    pub open spec fn wf(self) -> bool {
        &&& self.candidates.len() <= usize::MAX
        &&& forall|i: int|
            0 <= i < self.candidates.len() ==> match (#[trigger] self.candidates[i]).source {
                DeinflectionSource::Original => true,
                DeinflectionSource::Deinflection(p) => p < i,
            }
    }

    /// The text of candidate `i`: the text it was made from without its
    /// last `removed` characters, followed by the replacement.
    pub open spec fn text(self, i: int) -> Seq<char>
        decreases i,
    {
        if 0 <= i < self.candidates.len() {
            let c = self.candidates[i];
            let base = match c.source {
                DeinflectionSource::Original => self.word,
                DeinflectionSource::Deinflection(p) => if p < i {
                    self.text(p as int)
                } else {
                    Seq::empty()
                },
            };
            trim(base, c.removed) + c.replacement
        } else {
            Seq::empty()
        }
    }

    /// The text that candidate `i` was made from.
    pub open spec fn base(self, i: int) -> Seq<char> {
        match self.candidates[i].source {
            DeinflectionSource::Original => self.word,
            DeinflectionSource::Deinflection(p) => self.text(p as int),
        }
    }
}

/// Trimming twice is trimming once by the sum.
pub proof fn lemma_trim_trim(s: Seq<char>, a: nat, b: nat)
    ensures
        trim(trim(s, a), b) == trim(s, a + b),
{
}

/// Trimming a concatenation takes from the second part first, and from the
/// first part only what the second could not give.
pub proof fn lemma_trim_concat(a: Seq<char>, b: Seq<char>, k: nat)
    ensures
        k <= b.len() ==> trim(a + b, k) == a + b.take(b.len() - k),
        k >= b.len() ==> trim(a + b, k) == trim(a, (k - b.len()) as nat),
{
}

/// One candidate of an arena.
#[derive(Debug, Clone, Copy)]
pub struct DeinflectionData {
    /// What the candidate was made from.
    pub source: DeinflectionSource,
    replace_from_back: usize,
    replace_with: &'static str,
    replace_with_chars: usize,
    /// The word classes of the candidate.
    pub rules: Rules,
    /// The reasons gathered on the way to the candidate.
    pub reasons: Reasons,
}

impl View for DeinflectionData {
    type V = Candidate;

    closed spec fn view(&self) -> Candidate {
        Candidate {
            source: self.source,
            removed: self.replace_from_back as nat,
            replacement: self.replace_with@,
            rules: self.rules@,
            reasons: self.reasons@,
        }
    }
}

impl DeinflectionData {
    /// The stored length of the replacement is its length.
    pub closed spec fn wf(&self) -> bool {
        self.replace_with_chars == self.replace_with@.len()
    }

    /// What the candidate was made from.
    pub fn source(&self) -> (source: DeinflectionSource)
        ensures
            source == self@.source,
    {
        self.source
    }

    /// The word classes of the candidate.
    pub fn rules(&self) -> (rules: Rules)
        ensures
            rules@ == self@.rules,
    {
        self.rules
    }

    /// The reasons gathered on the way to the candidate.
    pub fn reasons(&self) -> (reasons: Reasons)
        ensures
            reasons@ == self@.reasons,
    {
        self.reasons
    }
}

/// A handle to one candidate of an arena.
#[derive(Debug, Clone, Copy)]
pub struct Deinflection(usize);

impl View for Deinflection {
    type V = int;

    /// The index of the candidate in its arena.
    closed spec fn view(&self) -> int {
        self.0 as int
    }
}

impl Deinflection {
    /// The handle to the candidate at `index`.
    pub(crate) fn at(index: usize) -> (deinflection: Self)
        ensures
            deinflection@ == index,
    {
        Deinflection(index)
    }

    /// The index of the candidate in its arena.
    pub fn index(&self) -> (i: usize)
        ensures
            i == self@,
    {
        self.0
    }
}

/// The candidates for one word.
#[derive(Debug, Clone)]
pub struct Deinflections {
    source: Vec<char>,
    deinflections: Vec<DeinflectionData>,
}

impl View for Deinflections {
    type V = Forest;

    closed spec fn view(&self) -> Forest {
        Forest {
            word: self.source@,
            candidates: Seq::new(self.deinflections@.len(), |i: int| self.deinflections@[i]@),
        }
    }
}

impl Deinflections {
    /// Each candidate's stored length is right.
    pub closed spec fn counted(&self) -> bool {
        forall|i: int|
            0 <= i < self.deinflections@.len() ==> (#[trigger] self.deinflections@[i]).wf()
    }

    /// The arena's invariant: parents come before their children, and each
    /// candidate's stored length is right.
    pub open spec fn wf(&self) -> bool {
        &&& self@.wf()
        &&& self.counted()
    }

    /// Whether `deinflection` is a handle into this arena.
    pub open spec fn has(&self, deinflection: Deinflection) -> bool {
        0 <= deinflection@ < self@.candidates.len()
    }

    /// An arena for `word` that holds no candidate yet.
    pub fn new(word: &str) -> (this: Self)
        ensures
            this.wf(),
            this@.word == word@,
            this@.candidates.len() == 0,
    {
        Deinflections::over(chars_of(word))
    }

    /// As `new`, for a word given by its characters.
    pub(crate) fn over(word: Vec<char>) -> (this: Self)
        ensures
            this.wf(),
            this@.word == word@,
            this@.candidates.len() == 0,
    {
        Deinflections { source: word, deinflections: Vec::new() }
    }

    /// Adds a candidate made from `source` and returns its handle. The
    /// candidates that were there keep their index.
    pub fn push(
        &mut self,
        source: DeinflectionSource,
        replace_from_back: usize,
        replace_with: &'static str,
        rules: Rules,
        reasons: Reasons,
    ) -> (deinflection: Deinflection)
        requires
            old(self).wf(),
            match source {
                DeinflectionSource::Original => true,
                DeinflectionSource::Deinflection(p) => p < old(self)@.candidates.len(),
            },
        ensures
            final(self).wf(),
            deinflection@ == old(self)@.candidates.len(),
            final(self)@.word == old(self)@.word,
            final(self)@.candidates == old(self)@.candidates.push(
                Candidate {
                    source,
                    removed: replace_from_back as nat,
                    replacement: replace_with@,
                    rules: rules@,
                    reasons: reasons@,
                },
            ),
    {
        self.push_counted(
            source,
            replace_from_back,
            replace_with,
            replace_with.unicode_len(),
            rules,
            reasons,
        )
    }

    /// As `push`, for a caller that knows the replacement's length.
    pub(crate) fn push_counted(
        &mut self,
        source: DeinflectionSource,
        replace_from_back: usize,
        replace_with: &'static str,
        replace_with_chars: usize,
        rules: Rules,
        reasons: Reasons,
    ) -> (deinflection: Deinflection)
        requires
            old(self).wf(),
            replace_with_chars == replace_with@.len(),
            match source {
                DeinflectionSource::Original => true,
                DeinflectionSource::Deinflection(p) => p < old(self)@.candidates.len(),
            },
        ensures
            final(self).wf(),
            deinflection@ == old(self)@.candidates.len(),
            final(self)@.word == old(self)@.word,
            final(self)@.candidates == old(self)@.candidates.push(
                Candidate {
                    source,
                    removed: replace_from_back as nat,
                    replacement: replace_with@,
                    rules: rules@,
                    reasons: reasons@,
                },
            ),
    {
        let deinflection = Deinflection(self.deinflections.len());
        let data = DeinflectionData {
            source,
            replace_from_back,
            replace_with,
            replace_with_chars,
            rules,
            reasons,
        };
        self.deinflections.push(data);
        assert(self@.candidates =~= old(self)@.candidates.push(data@));
        assert(self.deinflections@.len() == self.deinflections.len() <= usize::MAX);
        deinflection
    }

    /// How many candidates the arena holds.
    pub fn len(&self) -> (n: usize)
        ensures
            n == self@.candidates.len(),
    {
        self.deinflections.len()
    }

    /// The candidate behind a handle.
    pub fn data(&self, deinflection: Deinflection) -> (data: &DeinflectionData)
        requires
            self.has(deinflection),
        ensures
            data@ == self@.candidates[deinflection@],
            self.wf() ==> data.wf(),
    {
        &self.deinflections[deinflection.0]
    }

    /// The handles of all candidates, in the order of their indices.
    pub fn iter(&self) -> (all: Vec<Deinflection>)
        ensures
            all@.len() == self@.candidates.len(),
            forall|i: int| 0 <= i < all@.len() ==> (#[trigger] all@[i])@ == i,
    {
        let mut all: Vec<Deinflection> = Vec::new();
        let mut i: usize = 0;
        while i < self.deinflections.len()
            invariant
                i <= self.deinflections@.len(),
                all@.len() == i,
                forall|k: int| 0 <= k < all@.len() ==> (#[trigger] all@[k])@ == k,
            decreases self.deinflections@.len() - i,
        {
            all.push(Deinflection(i));
            i = i + 1;
        }
        all
    }
}

/// The text of one candidate, read from its last character to its first.
///
/// The reader stands in one layer at a time: a candidate's replacement, or
/// at the end the word itself. When a layer is used up it moves to the text
/// that the layer was made from, and skips there the characters that the
/// layers read so far have taken off. What a layer is too short to give up
/// is carried on to the layer before it.
pub struct CharsRev<'a> {
    forest: &'a Deinflections,
    layer: usize,
    left: usize,
    carry: u128,
    in_original: bool,
}

/// The carry of a reader that has gone up `steps` layers is below this.
spec fn carry_limit(steps: int) -> int {
    steps * 0x1_0000_0000_0000_0000
}

impl<'a> CharsRev<'a> {
    /// The text of the layer that the reader stands in.
    closed spec fn layer_text(&self) -> Seq<char> {
        if self.in_original {
            self.forest@.word
        } else {
            self.forest@.candidates[self.layer as int].replacement
        }
    }

    /// What is left to read once the current layer is used up.
    closed spec fn beyond(&self) -> Seq<char> {
        if self.in_original {
            Seq::empty()
        } else {
            trim(
                self.forest@.base(self.layer as int),
                (self.forest@.candidates[self.layer as int].removed + self.carry) as nat,
            )
        }
    }
}

impl<'a> CharSource for CharsRev<'a> {
    closed spec fn remaining(&self) -> Seq<char> {
        self.layer_text().take(self.left as int).reverse() + self.beyond().reverse()
    }

    closed spec fn inv(&self) -> bool {
        &&& self.forest.wf()
        &&& self.left <= self.layer_text().len()
        &&& !self.in_original ==> {
            &&& self.layer < self.forest.deinflections@.len()
            &&& self.carry <= carry_limit(self.forest.deinflections@.len() - 1 - self.layer)
        }
    }

    fn next(&mut self) -> (c: Option<char>) {
        loop
            invariant
                self.inv(),
                self.remaining() == old(self).remaining(),
            decreases
                    (if self.in_original {
                        0
                    } else {
                        self.layer + 1
                    }),
        {
            let ghost before = *self;
            if self.left > 0 {
                self.left = self.left - 1;
                let c = if self.in_original {
                    self.forest.source[self.left]
                } else {
                    self.forest.deinflections[self.layer].replace_with.get_char(self.left)
                };
                proof {
                    let t = self.layer_text();
                    assert(t.take(before.left as int).reverse().skip(1) =~= t.take(
                        self.left as int,
                    ).reverse());
                }
                return Some(c);
            }
            if self.in_original {
                return None;
            }
            let data = self.forest.deinflections[self.layer];
            let skip: u128 = data.replace_from_back as u128 + self.carry;
            match data.source {
                DeinflectionSource::Original => {
                    let len = self.forest.source.len();
                    self.in_original = true;
                    self.carry = 0;
                    self.left = if skip >= len as u128 {
                        0
                    } else {
                        len - skip as usize
                    };
                },
                DeinflectionSource::Deinflection(p) => {
                    let parent = self.forest.deinflections[p];
                    let len = parent.replace_with_chars;
                    if skip >= len as u128 {
                        self.left = 0;
                        self.carry = skip - len as u128;
                    } else {
                        self.left = len - skip as usize;
                        self.carry = 0;
                    }
                    self.layer = p;
                    proof {
                        let f = self.forest@;
                        let kept = trim(f.base(p as int), f.candidates[p as int].removed);
                        let put = f.candidates[p as int].replacement;
                        lemma_trim_concat(kept, put, skip as nat);
                        lemma_trim_trim(
                            f.base(p as int),
                            f.candidates[p as int].removed,
                            self.carry as nat,
                        );
                    }
                },
            }
        }
    }
}

impl Deinflections {
    /// A reader of the candidate's text, last character first.
    pub fn chars_rev(&self, deinflection: Deinflection) -> (chars: CharsRev<'_>)
        requires
            self.wf(),
            self.has(deinflection),
        ensures
            chars.inv(),
            chars.remaining() == self@.text(deinflection@).reverse(),
    {
        let data = &self.deinflections[deinflection.0];
        CharsRev {
            forest: self,
            layer: deinflection.0,
            left: data.replace_with_chars,
            carry: 0,
            in_original: false,
        }
    }

    /// The candidate's text.
    ///
    /// This allocates: first the characters in reverse, then the string.
    /// Where reading last character first will do, use `chars_rev`.
    pub fn to_string(&self, deinflection: Deinflection) -> (s: String)
        requires
            self.wf(),
            self.has(deinflection),
        ensures
            s@ == self@.text(deinflection@),
    {
        let mut chars = self.chars_rev(deinflection);
        let ghost all = chars.remaining();
        let mut reversed: Vec<char> = Vec::new();
        loop
            invariant_except_break
                chars.inv(),
                reversed@ + chars.remaining() == all,
            ensures
                reversed@ == all,
            decreases chars.remaining().len(),
        {
            match chars.next() {
                Some(c) => {
                    reversed.push(c);
                },
                None => {
                    break ;
                },
            }
        }
        string_of_reversed(&reversed)
    }
}

} // verus!
