//! Deinflection of Japanese words: from an inflected surface form back to
//! every dictionary form that a chain of inflection rules could have
//! produced it from.
//!
//! A table of rules is indexed once with `lookup_tree`. With the index,
//! `Deinflections::from_word` expands a word into its candidates, and
//! `Deinflections::from_str` does so for a text and each of its shorter
//! beginnings. A candidate's text is read with `chars_rev` or `to_string`.
//! What holds of every expansion is stated in `laws`.

pub mod chars;
pub mod expand;
pub mod flags;
pub mod forest;
pub mod index;
pub mod laws;
pub mod rules;
pub mod table;
pub mod text;
pub mod tree;

pub use chars::{CharSource, SliceChars};
pub use flags::{Reasons, Rules};
pub use forest::{CharsRev, Deinflection, DeinflectionData, DeinflectionSource, Deinflections};
pub use index::{lookup_tree, Info};
pub use rules::{r, InflectionRules, RuleInfo};
pub use table::inflection_rules;
pub use tree::{Node, Tree};
