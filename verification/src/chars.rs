//! Sources of characters that are read one at a time.

use vstd::prelude::*;

verus! {

/// A finite source of characters that gives them one by one and cannot be
/// rewound. The trie walks such a source without knowing its length.
pub trait CharSource {
    /// What the source has yet to give, the next character first.
    spec fn remaining(&self) -> Seq<char>;

    /// The source's own invariant.
    spec fn inv(&self) -> bool;

    /// Gives the next character, or `None` once the source is exhausted.
    fn next(&mut self) -> (c: Option<char>)
        requires
            old(self).inv(),
        ensures
            final(self).inv(),
            old(self).remaining().len() > 0 ==> c == Some(old(self).remaining()[0])
                && final(self).remaining() == old(self).remaining().skip(1),
            old(self).remaining().len() == 0 ==> c.is_none() && final(self).remaining().len() == 0,
    ;
}

/// A source over a slice of characters, read from either end.
pub struct SliceChars<'a> {
    text: &'a [char],
    given: usize,
    backward: bool,
}

impl<'a> SliceChars<'a> {
    /// Reads `text` from its first character to its last.
    pub fn forward(text: &'a [char]) -> (s: Self)
        ensures
            s.inv(),
            s.remaining() == text@,
    {
        SliceChars { text, given: 0, backward: false }
    }

    /// Reads `text` from its last character to its first.
    pub fn backward(text: &'a [char]) -> (s: Self)
        ensures
            s.inv(),
            s.remaining() == text@.reverse(),
    {
        SliceChars { text, given: 0, backward: true }
    }
}

impl<'a> CharSource for SliceChars<'a> {
    closed spec fn remaining(&self) -> Seq<char> {
        if self.backward {
            self.text@.reverse().skip(self.given as int)
        } else {
            self.text@.skip(self.given as int)
        }
    }

    closed spec fn inv(&self) -> bool {
        self.given <= self.text@.len()
    }

    fn next(&mut self) -> (c: Option<char>) {
        if self.given < self.text.len() {
            let at = if self.backward {
                self.text.len() - 1 - self.given
            } else {
                self.given
            };
            let c = self.text[at];
            self.given = self.given + 1;
            Some(c)
        } else {
            None
        }
    }
}

} // verus!
