//! Conversions between strings and sequences of characters.

use vstd::prelude::*;

verus! {

/// The characters of `s`, in order.
pub fn chars_of(s: &str) -> (v: Vec<char>)
    ensures
        v@ == s@,
{
    let mut v: Vec<char> = Vec::new();
    for c in it: s.chars()
        invariant
            v@ == it.seq().take(it.index() as int),
            it.seq() == s@,
    {
        v.push(c);
    }
    v
}

/// Appends one character to a string. Trusted: this is `String::push` of
/// the standard library, which adds the character at the end and changes
/// nothing else.
#[verifier::external_body]
fn push_char(s: &mut String, c: char)
    ensures
        final(s)@ == old(s)@.push(c),
{
    s.push(c)
}

/// The string whose characters are those of `reversed`, last first.
pub fn string_of_reversed(reversed: &Vec<char>) -> (s: String)
    ensures
        s@ == reversed@.reverse(),
{
    let mut s = String::new();
    let mut left: usize = reversed.len();
    while left > 0
        invariant
            left <= reversed@.len(),
            s@ == reversed@.skip(left as int).reverse(),
        decreases left,
    {
        left = left - 1;
        push_char(&mut s, reversed[left]);
    }
    s
}

} // verus!
