//! The two bit sets of the engine. `Rules` holds word classes and decides
//! which rule may follow which; `Reasons` holds the inflections that were
//! undone on the way to a candidate. They are different bit spaces and are
//! never mixed.

use vstd::prelude::*;

verus! {

/// A set of word classes, one bit for each.
#[derive(Debug, Clone, Copy, PartialEq, Eq, Structural)]
pub struct Rules {
    bits: u8,
}

impl View for Rules {
    type V = u8;

    /// The bits of the set.
    closed spec fn view(&self) -> u8 {
        self.bits
    }
}

impl Rules {
    /// The bit of ichidan verbs.
    pub const V1: u8 = 0x01;

    /// The bit of godan verbs.
    pub const V5: u8 = 0x02;

    /// The bit of suru verbs.
    pub const VS: u8 = 0x04;

    /// The bit of kuru verbs.
    pub const VK: u8 = 0x08;

    /// The bit of zuru verbs.
    pub const VZ: u8 = 0x10;

    /// The bit of i-adjectives.
    pub const ADJ_I: u8 = 0x20;

    /// The bit of the intermediate -te form that -iru attaches to.
    pub const IRU: u8 = 0x40;

    /// The set that holds no class.
    pub fn empty() -> (r: Self)
        ensures
            r@ == 0,
    {
        Rules { bits: 0 }
    }

    /// The set with exactly the given bits, whether they are named or not.
    pub fn from_bits_retain(bits: u8) -> (r: Self)
        ensures
            r@ == bits,
    {
        Rules { bits }
    }

    /// The bits of the set.
    pub fn bits(&self) -> (b: u8)
        ensures
            b == self@,
    {
        self.bits
    }

    /// Whether the set holds no class.
    pub fn is_empty(&self) -> (b: bool)
        ensures
            b == (self@ == 0),
    {
        self.bits == 0
    }

    /// Whether the two sets share a class.
    pub fn intersects(&self, other: Self) -> (b: bool)
        ensures
            b == (self@ & other@ != 0),
    {
        self.bits & other.bits != 0
    }

    /// Whether every class of `other` is in this set.
    pub fn contains(&self, other: Self) -> (b: bool)
        ensures
            b == (self@ & other@ == other@),
    {
        self.bits & other.bits == other.bits
    }

    /// The set of what is in either set.
    pub fn union(self, other: Self) -> (r: Self)
        ensures
            r@ == self@ | other@,
    {
        Rules { bits: self.bits | other.bits }
    }
}

/// A set of inflection reasons, one bit for each.
#[derive(Debug, Clone, Copy, PartialEq, Eq, Structural)]
pub struct Reasons {
    bits: u64,
}

impl View for Reasons {
    type V = u64;

    /// The bits of the set.
    closed spec fn view(&self) -> u64 {
        self.bits
    }
}

impl Reasons {
    /// The bit of the conditional in -ba.
    pub const BA: u64 = 0x000000001;

    /// The bit of the contraction -chau.
    pub const CHAU: u64 = 0x000000002;

    /// The bit of the contraction -chimau.
    pub const CHIMAU: u64 = 0x000000004;

    /// The bit of the auxiliary -shimau.
    pub const SHIMAU: u64 = 0x000000008;

    /// The bit of the polite command in -nasai.
    pub const NASAI: u64 = 0x000000010;

    /// The bit of the appearance form in -sou.
    pub const SOU: u64 = 0x000000020;

    /// The bit of the excess form in -sugiru.
    pub const SUGIRU: u64 = 0x000000040;

    /// The bit of the desiderative in -tai.
    pub const TAI: u64 = 0x000000080;

    /// The bit of the conditional in -tara.
    pub const TARA: u64 = 0x000000100;

    /// The bit of the listing form in -tari.
    pub const TARI: u64 = 0x000000200;

    /// The bit of the -te form.
    pub const TE: u64 = 0x000000400;

    /// The bit of the negative in -zu.
    pub const ZU: u64 = 0x000000800;

    /// The bit of the negative in -nu.
    pub const NU: u64 = 0x000001000;

    /// The bit of the adverbial form.
    pub const ADV: u64 = 0x000002000;

    /// The bit of the causative.
    pub const CAUSATIVE: u64 = 0x000004000;

    /// The bit of the imperative.
    pub const IMPERATIVE: u64 = 0x000008000;

    /// The bit of the negative imperative.
    pub const IMPERATIVE_NEGATIVE: u64 = 0x000010000;

    /// The bit of the stem that -masu attaches to.
    pub const MASU_STEM: u64 = 0x000020000;

    /// The bit of the plain negative.
    pub const NEGATIVE: u64 = 0x000040000;

    /// The bit of the noun form.
    pub const NOUN: u64 = 0x000080000;

    /// The bit of the passive.
    pub const PASSIVE: u64 = 0x000100000;

    /// The bit of the plain past.
    pub const PAST: u64 = 0x000200000;

    /// The bit of the polite form.
    pub const POLITE: u64 = 0x000400000;

    /// The bit of the polite negative.
    pub const POLITE_NEGATIVE: u64 = 0x000800000;

    /// The bit of the polite past.
    pub const POLITE_PAST: u64 = 0x001000000;

    /// The bit of the polite past negative.
    pub const POLITE_PAST_NEGATIVE: u64 = 0x002000000;

    /// The bit of the polite volitional.
    pub const POLITE_VOLITIONAL: u64 = 0x004000000;

    /// The bit of the potential.
    pub const POTENTIAL: u64 = 0x008000000;

    /// The bit of the form that is both potential and passive.
    pub const POTENTIAL_OR_PASSIVE: u64 = 0x010000000;

    /// The bit of the volitional.
    pub const VOLITIONAL: u64 = 0x020000000;

    /// The bit of the causative passive.
    pub const CAUSATIVE_PASSIVE: u64 = 0x040000000;

    /// The bit of the contraction -toku.
    pub const TOKU: u64 = 0x080000000;

    /// The bit of the progressive or perfect in -te iru.
    pub const PROGRESSIVE_OR_PERFECT: u64 = 0x100000000;

    /// The bit of the attributive in -ki.
    pub const KI: u64 = 0x200000000;

    /// The bit of the appearance form in -ge.
    pub const GE: u64 = 0x400000000;

    /// The bit of the colloquial ending -e.
    pub const E: u64 = 0x800000000;

    /// The set that holds no reason.
    pub fn empty() -> (r: Self)
        ensures
            r@ == 0,
    {
        Reasons { bits: 0 }
    }

    /// The set with exactly the given bits, whether they are named or not.
    pub fn from_bits_retain(bits: u64) -> (r: Self)
        ensures
            r@ == bits,
    {
        Reasons { bits }
    }

    /// The bits of the set.
    pub fn bits(&self) -> (b: u64)
        ensures
            b == self@,
    {
        self.bits
    }

    /// Whether the set holds no reason.
    pub fn is_empty(&self) -> (b: bool)
        ensures
            b == (self@ == 0),
    {
        self.bits == 0
    }

    /// Whether the two sets share a reason.
    pub fn intersects(&self, other: Self) -> (b: bool)
        ensures
            b == (self@ & other@ != 0),
    {
        self.bits & other.bits != 0
    }

    /// Whether every reason of `other` is in this set.
    pub fn contains(&self, other: Self) -> (b: bool)
        ensures
            b == (self@ & other@ == other@),
    {
        self.bits & other.bits == other.bits
    }

    /// The set of what is in either set.
    pub fn union(self, other: Self) -> (r: Self)
        ensures
            r@ == self@ | other@,
    {
        Reasons { bits: self.bits | other.bits }
    }
}

/// Whether a candidate of class `class` may be extended by a rule that asks
/// for `rules_in`: a candidate of no class accepts every rule, any other
/// one needs a class in common.
pub open spec fn compatible(class: u8, rules_in: u8) -> bool {
    class == 0 || class & rules_in != 0
}

} // verus!
