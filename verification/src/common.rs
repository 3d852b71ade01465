//! The result model: what one scanned entity yielded, and the durable record made of it.

use vstd::prelude::*;
use wegglix::result::QueryResult;

use crate::rules::{resolves, RuleInfo, RuleTable, Severity};

verus! {

/// `wegglix::result::QueryResult`: the source ranges that one structural match captured.
/// It is carried through as it came from the matcher and never looked into.
#[verifier::external_type_specification]
#[verifier::external_body]
pub struct ExQueryResult(QueryResult);

/// Whether the ranges of `result` were captured in `source`, so that they can be shown
/// within it.
pub uninterp spec fn captured_in(result: QueryResult, source: Seq<char>) -> bool;

/// `QueryResult::clone`, which `derive` wrote field by field: the copy is the same value.
pub assume_specification[ <QueryResult as Clone>::clone ](result: &QueryResult) -> (copy:
    QueryResult)
    ensures
        copy == *result,
;

/// One match: which rule and which of its checkers fired, by position in the rule set that
/// was matched, and what was captured.
#[derive(Clone, Debug)]
pub struct MatchResult {
    pub rule: usize,
    pub checker: usize,
    pub result: QueryResult,
}

/// The findings for one scanned entity: a function of a binary, or a whole source file.
#[derive(Clone, Debug)]
pub struct MatchResultGroup {
    /// The exact text that was matched against.
    pub source: String,
    pub function_name: Option<String>,
    pub function_address: Option<u64>,
    /// The matches, in the order in which they were found.
    pub results: Vec<MatchResult>,
}

/// A [`MatchResultGroup`] as contracts see it.
pub struct GroupView {
    pub source: Seq<char>,
    pub function_name: Option<Seq<char>>,
    pub function_address: Option<u64>,
    pub results: Seq<MatchResult>,
}

impl GroupView {
    /// Every match names a rule of `rules` and a checker of that rule.
    pub open spec fn resolves_in(self, rules: Seq<RuleInfo>) -> bool {
        forall|i: int|
            0 <= i < self.results.len() ==> resolves(
                rules,
                (#[trigger] self.results[i]).rule as int,
                self.results[i].checker as int,
            )
    }

    /// Every match was captured in the text that the group carries.
    pub open spec fn captured(self) -> bool {
        forall|i: int|
            0 <= i < self.results.len() ==> captured_in(
                (#[trigger] self.results[i]).result,
                self.source,
            )
    }
}

impl View for MatchResultGroup {
    type V = GroupView;

    open spec fn view(&self) -> GroupView {
        GroupView {
            source: self.source@,
            function_name: self.function_name.deep_view(),
            function_address: self.function_address,
            results: self.results@,
        }
    }
}

/// One match of a durable record, with its indices resolved to names.
#[derive(Clone, Debug)]
pub struct MatchResultRecord {
    pub rule: String,
    pub checker: String,
    pub severity: Severity,
    pub result: QueryResult,
}

/// A [`MatchResultRecord`] as contracts see it.
pub struct RecordView {
    pub rule: Seq<char>,
    pub checker: Seq<char>,
    pub severity: Severity,
    pub result: QueryResult,
}

impl View for MatchResultRecord {
    type V = RecordView;

    open spec fn view(&self) -> RecordView {
        RecordView {
            rule: self.rule@,
            checker: self.checker@,
            severity: self.severity,
            result: self.result,
        }
    }
}

/// The durable projection of a [`MatchResultGroup`]: it names the scanned path and holds
/// rule and checker by name, so that it can be read without the rule set.
#[derive(Clone, Debug)]
pub struct MatchResultGroupRecord {
    pub path: String,
    pub source: String,
    pub function_name: Option<String>,
    pub function_address: Option<u64>,
    pub results: Vec<MatchResultRecord>,
}

/// A [`MatchResultGroupRecord`] as contracts see it.
pub struct GroupRecordView {
    pub path: Seq<char>,
    pub source: Seq<char>,
    pub function_name: Option<Seq<char>>,
    pub function_address: Option<u64>,
    pub results: Seq<RecordView>,
}

impl View for MatchResultGroupRecord {
    type V = GroupRecordView;

    open spec fn view(&self) -> GroupRecordView {
        GroupRecordView {
            path: self.path@,
            source: self.source@,
            function_name: self.function_name.deep_view(),
            function_address: self.function_address,
            results: Seq::new(self.results@.len(), |i: int| self.results@[i]@),
        }
    }
}

/// The views of a list of records.
pub open spec fn record_views(records: Seq<MatchResultGroupRecord>) -> Seq<GroupRecordView> {
    Seq::new(records.len(), |i: int| records[i]@)
}

/// A match with its two indices replaced by what they name in `rules`.
pub open spec fn resolved_match(found: MatchResult, rules: Seq<RuleInfo>) -> RecordView {
    RecordView {
        rule: rules[found.rule as int].id,
        checker: rules[found.rule as int].checkers[found.checker as int],
        severity: rules[found.rule as int].severity,
        result: found.result,
    }
}

/// The record of `group`, scanned at `origin` with `rules`.
pub open spec fn record_of(group: GroupView, rules: Seq<RuleInfo>, origin: Seq<char>)
    -> GroupRecordView {
    GroupRecordView {
        path: origin,
        source: group.source,
        function_name: group.function_name,
        function_address: group.function_address,
        results: Seq::new(group.results.len(), |i: int| resolved_match(group.results[i], rules)),
    }
}

/// A copy of an optional text.
pub(crate) fn clone_text(text: &Option<String>) -> (copy: Option<String>)
    ensures
        copy.deep_view() == text.deep_view(),
{
    match text {
        Some(inner) => Some(inner.clone()),
        None => None,
    }
}

impl MatchResultGroup {
    /// A group for a function of a binary.
    pub fn new_with(
        function_name: Option<String>,
        function_address: Option<u64>,
        source: String,
        matches: Vec<MatchResult>,
    ) -> (group: MatchResultGroup)
        ensures
            group@ == (GroupView {
                source: source@,
                function_name: function_name.deep_view(),
                function_address: function_address,
                results: matches@,
            }),
    {
        MatchResultGroup { source, function_name, function_address, results: matches }
    }

    /// A group for a whole source file, which has neither a name nor an address.
    pub fn new(source: String, matches: Vec<MatchResult>) -> (group: MatchResultGroup)
        ensures
            group@ == (GroupView {
                source: source@,
                function_name: None,
                function_address: None,
                results: matches@,
            }),
    {
        MatchResultGroup::new_with(None, None, source, matches)
    }

    /// Whether every match of the group names a rule of `rules` and a checker of that rule.
    pub fn resolves(&self, rules: &RuleTable) -> (found: bool)
        ensures
            found == self@.resolves_in(rules@),
    {
        let mut index: usize = 0;
        while index < self.results.len()
            invariant
                index <= self.results@.len(),
                forall|i: int|
                    0 <= i < index ==> resolves(
                        rules@,
                        (#[trigger] self.results@[i]).rule as int,
                        self.results@[i].checker as int,
                    ),
            decreases self.results@.len() - index,
        {
            if !rules.resolves(self.results[index].rule, self.results[index].checker) {
                assert(self@.results[index as int] == self.results@[index as int]);
                return false;
            }
            index = index + 1;
        }
        true
    }

    /// Appends the record of this group, scanned at `origin`, to `writer`. Every index is
    /// resolved against `rules` here, so the record no longer depends on how the rule set
    /// is laid out.
    pub fn write_record(
        &self,
        rules: &RuleTable,
        origin: &str,
        writer: &mut Vec<MatchResultGroupRecord>,
    )
        requires
            self@.resolves_in(rules@),
        ensures
            record_views(final(writer)@) == record_views(old(writer)@).push(
                record_of(self@, rules@, origin@),
            ),
    {
        let mut results: Vec<MatchResultRecord> = Vec::new();
        let mut index: usize = 0;
        while index < self.results.len()
            invariant
                index <= self.results@.len(),
                self@.resolves_in(rules@),
                results@.len() == index,
                forall|i: int|
                    0 <= i < index ==> (#[trigger] results@[i])@ == resolved_match(
                        self.results@[i],
                        rules@,
                    ),
            decreases self.results@.len() - index,
        {
            let found = &self.results[index];
            assert(resolves(rules@, found.rule as int, found.checker as int)) by {
                assert(self@.results[index as int] == *found);
            }
            let rule = &rules.entries[found.rule];
            proof {
                assert(rules@[found.rule as int] == rule@);
                assert(rule.checkers.deep_view()[found.checker as int]
                    == rule.checkers@[found.checker as int]@);
            }
            results.push(
                MatchResultRecord {
                    rule: rule.id.clone(),
                    checker: rule.checkers[found.checker].clone(),
                    severity: rule.severity,
                    result: found.result.clone(),
                },
            );
            index = index + 1;
        }
        let record = MatchResultGroupRecord {
            path: origin.to_owned(),
            source: self.source.clone(),
            function_name: clone_text(&self.function_name),
            function_address: self.function_address,
            results,
        };
        assert(record@.results =~= record_of(self@, rules@, origin@).results);
        assert(record@ == record_of(self@, rules@, origin@));
        writer.push(record);
        assert(record_views(writer@) =~= record_views(old(writer)@).push(
            record_of(self@, rules@, origin@),
        ));
    }
}

} // verus!
