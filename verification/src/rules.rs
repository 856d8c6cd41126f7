//! Inflection rules as a table holds them, and as contracts see them.

use vstd::prelude::*;
use crate::flags::{Reasons, Rules};

verus! {

/// One rule of a table: a word that ends in `kana_in` may come from one
/// that ends in `kana_out` instead.
#[derive(Debug, Clone, Copy)]
pub struct RuleInfo {
    /// The ending of the inflected form.
    pub kana_in: &'static str,
    /// The ending of the form it comes from.
    pub kana_out: &'static str,
    /// The classes that the inflected form may have.
    pub rules_in: Rules,
    /// The classes that the form it comes from then has.
    pub rules_out: Rules,
}

/// The rules of a table that undo one kind of inflection.
pub struct InflectionRules {
    /// The reason that every rule of the group gives.
    pub reason: Reasons,
    /// The rules, in the order of the table.
    pub rules: Vec<RuleInfo>,
}

/// Short for a `RuleInfo` with these fields.
pub fn r(kana_in: &'static str, kana_out: &'static str, rules_in: Rules, rules_out: Rules) -> (rule:
    RuleInfo)
    ensures
        rule.kana_in == kana_in,
        rule.kana_out == kana_out,
        rule.rules_in == rules_in,
        rule.rules_out == rules_out,
{
    RuleInfo { kana_in, kana_out, rules_in, rules_out }
}

/// A rule together with its reason, as contracts see it.
pub struct Rule {
    /// The bit of the reason.
    pub reason: u64,
    /// The ending of the inflected form.
    pub input: Seq<char>,
    /// The ending of the form it comes from.
    pub output: Seq<char>,
    /// The bits of the classes that the inflected form may have.
    pub rules_in: u8,
    /// The bits of the classes that the form it comes from then has.
    pub rules_out: u8,
}

/// The rule with these endings and these class bits under `reason`.
pub open spec fn rule(reason: u64, input: &str, output: &str, rules_in: u8, rules_out: u8) -> Rule {
    Rule { reason, input: input@, output: output@, rules_in, rules_out }
}

/// The rule that `rule` is in a group with reason `reason`.
pub open spec fn rule_of(reason: Reasons, rule: RuleInfo) -> Rule {
    Rule {
        reason: reason@,
        input: rule.kana_in@,
        output: rule.kana_out@,
        rules_in: rule.rules_in@,
        rules_out: rule.rules_out@,
    }
}

impl InflectionRules {
    /// The first `n` rules of the group.
    pub open spec fn first(&self, n: int) -> Seq<Rule> {
        Seq::new(n as nat, |i: int| rule_of(self.reason, self.rules@[i]))
    }
}

impl View for InflectionRules {
    type V = Seq<Rule>;

    /// The rules of the group, in order.
    open spec fn view(&self) -> Seq<Rule> {
        self.first(self.rules@.len() as int)
    }
}

/// The rules of the first `n` groups of a table, group after group.
pub open spec fn table_rules(table: Seq<InflectionRules>, n: nat) -> Seq<Rule>
    decreases n,
{
    if n == 0 {
        Seq::empty()
    } else {
        table_rules(table, (n - 1) as nat) + table[n - 1]@
    }
}

/// The first `n` of `groups`, one after the other.
pub open spec fn joined(groups: Seq<Seq<Rule>>, n: nat) -> Seq<Rule>
    decreases n,
{
    if n == 0 {
        Seq::empty()
    } else {
        joined(groups, (n - 1) as nat) + groups[n - 1]
    }
}

/// The rules of a table are those of its groups, one group after the
/// other.
pub proof fn lemma_table_joined(table: Seq<InflectionRules>, groups: Seq<Seq<Rule>>, n: nat)
    requires
        forall|g: int| 0 <= g < n ==> (#[trigger] table[g])@ == groups[g],
    ensures
        table_rules(table, n) == joined(groups, n),
    decreases n,
{
    if n > 0 {
        lemma_table_joined(table, groups, (n - 1) as nat);
    }
}

/// Those of `rules` whose inflected ending, read backward, is `key`; they
/// keep their order.
pub open spec fn keyed(rules: Seq<Rule>, key: Seq<char>) -> Seq<Rule>
    decreases rules.len(),
{
    if rules.len() == 0 {
        Seq::empty()
    } else {
        let before = keyed(rules.drop_last(), key);
        if rules.last().input.reverse() == key {
            before.push(rules.last())
        } else {
            before
        }
    }
}

} // verus!
