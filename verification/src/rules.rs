//! The rule set as the reporting channels see it: for every rule its identifier, its
//! severity and the names of its checkers, found by position.

use vstd::prelude::*;
use weggli_ruleset::RuleSet;

verus! {

/// `weggli_ruleset::RuleSet`: an ordered collection of rules that never changes once it is
/// loaded. Nothing inside it is visible here; [`rule_entries`] names what it holds.
#[verifier::external_type_specification]
#[verifier::external_body]
pub struct ExRuleSet(RuleSet);

/// How important a rule is. The variants are those of `weggli_ruleset::rule::Severity`.
#[derive(Clone, Copy, Debug, PartialEq, Eq, Structural)]
pub enum Severity {
    /// The rule states no severity (`None` in the rule set).
    Unrated,
    Low,
    Medium,
    High,
    Critical,
}

impl Severity {
    /// The variant's name, which heads a finding on the console.
    pub open spec fn name_text(self) -> Seq<char> {
        match self {
            Severity::Unrated => "None"@,
            Severity::Low => "Low"@,
            Severity::Medium => "Medium"@,
            Severity::High => "High"@,
            Severity::Critical => "Critical"@,
        }
    }

    /// The lower-case label that fills the severity column of the summary table.
    pub open spec fn label_text(self) -> Seq<char> {
        match self {
            Severity::Unrated => "n/a"@,
            Severity::Low => "low"@,
            Severity::Medium => "medium"@,
            Severity::High => "high"@,
            Severity::Critical => "critical"@,
        }
    }

    pub fn name(&self) -> (text: &'static str)
        ensures
            text@ == self.name_text(),
    {
        match self {
            Severity::Unrated => "None",
            Severity::Low => "Low",
            Severity::Medium => "Medium",
            Severity::High => "High",
            Severity::Critical => "Critical",
        }
    }

    pub fn label(&self) -> (text: &'static str)
        ensures
            text@ == self.label_text(),
    {
        match self {
            Severity::Unrated => "n/a",
            Severity::Low => "low",
            Severity::Medium => "medium",
            Severity::High => "high",
            Severity::Critical => "critical",
        }
    }
}

/// What the reports say of one rule.
pub struct RuleInfo {
    pub id: Seq<char>,
    pub severity: Severity,
    pub checkers: Seq<Seq<char>>,
}

/// The rules that a rule set holds, in its own order.
pub uninterp spec fn rule_entries(rules: RuleSet) -> Seq<RuleInfo>;

/// Whether a match's two indices name a rule of `rules` and a checker of that rule.
pub open spec fn resolves(rules: Seq<RuleInfo>, rule: int, checker: int) -> bool {
    0 <= rule < rules.len() && 0 <= checker < rules[rule].checkers.len()
}

/// One rule, copied out of a rule set.
#[derive(Clone, Debug)]
pub struct RuleEntry {
    pub id: String,
    pub severity: Severity,
    pub checkers: Vec<String>,
}

impl View for RuleEntry {
    type V = RuleInfo;

    open spec fn view(&self) -> RuleInfo {
        RuleInfo {
            id: self.id@,
            severity: self.severity,
            checkers: self.checkers.deep_view(),
        }
    }
}

/// The rules of one scan, copied out of the rule set so that indices can be resolved.
#[derive(Clone, Debug)]
pub struct RuleTable {
    pub entries: Vec<RuleEntry>,
}

impl View for RuleTable {
    type V = Seq<RuleInfo>;

    open spec fn view(&self) -> Seq<RuleInfo> {
        Seq::new(self.entries@.len(), |i: int| self.entries@[i]@)
    }
}

/// Calls `RuleSet::len`: the number of rules in the set.
#[verifier::external_body]
pub(crate) fn rule_count(rules: &RuleSet) -> (count: usize)
    ensures
        count == rule_entries(*rules).len(),
{
    rules.len()
}

/// Calls `RuleSet::get_ref` and copies the rule's identifier, severity and checker names.
/// There is a rule at `index` exactly when `index` is below the number of rules, and what
/// comes back is that rule.
#[verifier::external_body]
pub(crate) fn rule_entry(rules: &RuleSet, index: usize) -> (entry: Option<RuleEntry>)
    ensures
        entry is Some <==> index < rule_entries(*rules).len(),
        entry matches Some(e) ==> e@ == rule_entries(*rules)[index as int],
{
    let rule = rules.get_ref(index)?;
    let severity = match rule.severity() {
        weggli_ruleset::rule::Severity::None => Severity::Unrated,
        weggli_ruleset::rule::Severity::Low => Severity::Low,
        weggli_ruleset::rule::Severity::Medium => Severity::Medium,
        weggli_ruleset::rule::Severity::High => Severity::High,
        weggli_ruleset::rule::Severity::Critical => Severity::Critical,
    };
    let checkers = rule.checks().iter().map(|c| c.name().to_owned()).collect();
    Some(RuleEntry { id: rule.id().to_owned(), severity, checkers })
}

/// `RuleSet::clone`, which shares the rules of the set it is called on: the copy is the same value.
pub assume_specification[ <RuleSet as Clone>::clone ](rules: &RuleSet) -> (copy: RuleSet)
    ensures
        copy == *rules,
;

impl RuleTable {
    /// Copies every rule of `rules`, in order.
    pub fn from_rules(rules: &RuleSet) -> (table: RuleTable)
        ensures
            table@ == rule_entries(*rules),
    {
        let count: usize = rule_count(rules);
        let mut entries: Vec<RuleEntry> = Vec::new();
        let mut index: usize = 0;
        while index < count
            invariant
                index <= count,
                count == rule_entries(*rules).len(),
                entries@.len() == index,
                forall|i: int|
                    0 <= i < index ==> (#[trigger] entries@[i])@ == rule_entries(*rules)[i],
            decreases count - index,
        {
            match rule_entry(rules, index) {
                Some(entry) => {
                    entries.push(entry);
                },
                None => {},
            }
            index = index + 1;
        }
        let table = RuleTable { entries };
        assert(table@ =~= rule_entries(*rules));
        table
    }

    /// The number of rules.
    pub fn len(&self) -> (count: usize)
        ensures
            count == self@.len(),
    {
        self.entries.len()
    }

    /// The rule at `index`, if there is one.
    pub fn get(&self, index: usize) -> (entry: Option<&RuleEntry>)
        ensures
            entry is Some <==> index < self@.len(),
            entry matches Some(e) ==> e@ == self@[index as int],
    {
        if index < self.entries.len() {
            Some(&self.entries[index])
        } else {
            None
        }
    }

    /// Whether `rule` and `checker` name a rule of the table and a checker of that rule.
    pub fn resolves(&self, rule: usize, checker: usize) -> (found: bool)
        ensures
            found == resolves(self@, rule as int, checker as int),
    {
        if rule < self.entries.len() {
            proof {
                assert(self@[rule as int] == self.entries@[rule as int]@);
            }
            checker < self.entries[rule].checkers.len()
        } else {
            false
        }
    }
}

} // verus!
