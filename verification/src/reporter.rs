//! The reporter: it takes what a scan target yielded and says what each output channel
//! receives for it, console text and durable records.

use vstd::prelude::*;
use vstd::string::*;

use crate::common::{
    record_of, record_views, GroupRecordView, GroupView, MatchResultGroup, MatchResultGroupRecord,
};
use crate::display::{pretty_text, sharp_table, table_rows};
use crate::rules::{RuleInfo, RuleTable};

verus! {

/// What the output channels receive for one scan target.
#[derive(Clone, Debug)]
pub struct Emission {
    /// The text for the console, line ends included.
    pub console: String,
    /// The records for the durable output, one line each, in order.
    pub records: Vec<MatchResultGroupRecord>,
}

/// What one target came to: its path with the groups found, or its path with the reason
/// why it could not be analysed.
pub type TaskResult = Result<(String, Vec<MatchResultGroup>), (String, String)>;

/// Which output channels a scan has.
pub struct Channels {
    pub display: bool,
    pub summary: bool,
    pub output_is_stdout: bool,
    pub has_writer: bool,
}

/// The output channels of a scan and the rules that its findings refer to.
#[derive(Clone, Debug)]
pub struct Reporter {
    pub rules: RuleTable,
    /// Show each match in its context on the console.
    pub display: bool,
    /// The number of lines shown before and after a match.
    pub display_context: usize,
    /// Show a summary table on the console.
    pub summary: bool,
    /// The durable records go to the standard output, which the console then leaves alone.
    pub output_is_stdout: bool,
    /// Durable records are wanted.
    pub has_writer: bool,
}

/// The views of a list of groups.
pub open spec fn group_views(groups: Seq<MatchResultGroup>) -> Seq<GroupView> {
    Seq::new(groups.len(), |i: int| groups[i]@)
}

/// The match-by-match console text of the first `count` groups, `rendered[i][j]` being the
/// rendering of match `j` of group `i`.
pub open spec fn pretty_all(
    groups: Seq<GroupView>,
    rules: Seq<RuleInfo>,
    origin: Seq<char>,
    rendered: Seq<Seq<Seq<char>>>,
    count: nat,
) -> Seq<char>
    decreases count,
{
    if count == 0 {
        Seq::empty()
    } else {
        pretty_all(groups, rules, origin, rendered, (count - 1) as nat) + pretty_text(
            groups[count - 1],
            rules,
            origin,
            rendered[count - 1],
            groups[count - 1].results.len(),
        )
    }
}

/// The summary table of one group with its line end; nothing for a group without matches.
pub open spec fn table_text(group: GroupView, rules: Seq<RuleInfo>, origin: Seq<char>) -> Seq<
    char,
> {
    if group.results.len() == 0 {
        Seq::empty()
    } else {
        sharp_table(table_rows(group, rules, origin)) + "\n"@
    }
}

/// The summary tables of the first `count` groups, one after the other.
pub open spec fn tables_all(
    groups: Seq<GroupView>,
    rules: Seq<RuleInfo>,
    origin: Seq<char>,
    count: nat,
) -> Seq<char>
    decreases count,
{
    if count == 0 {
        Seq::empty()
    } else {
        tables_all(groups, rules, origin, (count - 1) as nat) + table_text(
            groups[count - 1],
            rules,
            origin,
        )
    }
}

/// The records of the first `count` groups: one for each group that has a match.
pub open spec fn records_all(
    groups: Seq<GroupView>,
    rules: Seq<RuleInfo>,
    origin: Seq<char>,
    count: nat,
) -> Seq<GroupRecordView>
    decreases count,
{
    if count == 0 {
        Seq::empty()
    } else {
        let before = records_all(groups, rules, origin, (count - 1) as nat);
        if groups[count - 1].results.len() == 0 {
            before
        } else {
            before.push(record_of(groups[count - 1], rules, origin))
        }
    }
}

/// Whether `rendered` holds one rendering for each match of each group.
pub open spec fn renders(rendered: Seq<Seq<Seq<char>>>, groups: Seq<GroupView>) -> bool {
    &&& rendered.len() == groups.len()
    &&& forall|i: int|
        0 <= i < groups.len() ==> (#[trigger] rendered[i]).len() == groups[i].results.len()
}

/// What the console receives for the groups found at `origin`. The match-by-match text
/// comes first and the tables after it; with the records on the standard output the
/// console receives nothing.
pub open spec fn console_text(
    channels: Channels,
    rules: Seq<RuleInfo>,
    origin: Seq<char>,
    groups: Seq<GroupView>,
    rendered: Seq<Seq<Seq<char>>>,
) -> Seq<char> {
    if channels.output_is_stdout {
        Seq::empty()
    } else {
        let shown = if channels.display {
            pretty_all(groups, rules, origin, rendered, groups.len())
        } else {
            Seq::empty()
        };
        let tabled = if channels.summary {
            tables_all(groups, rules, origin, groups.len())
        } else {
            Seq::empty()
        };
        shown + tabled
    }
}

/// The records that the durable output receives for the groups found at `origin`.
pub open spec fn record_list(
    channels: Channels,
    rules: Seq<RuleInfo>,
    origin: Seq<char>,
    groups: Seq<GroupView>,
) -> Seq<GroupRecordView> {
    if channels.has_writer {
        records_all(groups, rules, origin, groups.len())
    } else {
        Seq::empty()
    }
}

/// The line that the console receives for a target that could not be analysed.
pub open spec fn diagnostic_text(channels: Channels, path: Seq<char>, message: Seq<char>) -> Seq<
    char,
> {
    if channels.output_is_stdout {
        Seq::empty()
    } else {
        "failed to analyse "@ + path + ": "@ + message + "\n"@
    }
}

/// Whether `emission` is what the channels receive for `groups` found at `origin`, the
/// matches being rendered as `rendered` says.
pub open spec fn emitted(
    channels: Channels,
    rules: Seq<RuleInfo>,
    origin: Seq<char>,
    groups: Seq<GroupView>,
    rendered: Seq<Seq<Seq<char>>>,
    emission: Emission,
) -> bool {
    &&& renders(rendered, groups)
    &&& emission.console@ == console_text(channels, rules, origin, groups, rendered)
    &&& record_views(emission.records@) == record_list(channels, rules, origin, groups)
}

/// What a reporter asks of the groups it is given: every match resolves against the rules,
/// and where matches are shown in context they were captured in their group's text.
pub open spec fn accepted(channels: Channels, rules: Seq<RuleInfo>, groups: Seq<GroupView>)
    -> bool {
    forall|i: int|
        0 <= i < groups.len() ==> {
            &&& (#[trigger] groups[i]).resolves_in(rules)
            &&& channels.display && !channels.output_is_stdout ==> groups[i].captured()
        }
}

/// A [`TaskResult`] as contracts see it.
pub type OutcomeView = Result<(Seq<char>, Seq<GroupView>), (Seq<char>, Seq<char>)>;

/// The view of what one target came to.
pub open spec fn outcome_view(result: TaskResult) -> OutcomeView {
    match result {
        Ok(found) => Ok((found.0@, group_views(found.1@))),
        Err(failed) => Err((failed.0@, failed.1@)),
    }
}

/// The records that the durable output receives for one target: those of its groups
/// that have a match, and none for a target that could not be analysed.
pub open spec fn outcome_records(channels: Channels, rules: Seq<RuleInfo>, outcome: OutcomeView)
    -> Seq<GroupRecordView> {
    match outcome {
        Ok(found) => record_list(channels, rules, found.0, found.1),
        Err(_) => Seq::empty(),
    }
}

/// The diagnostic lines that the console receives for one target: one for a target that
/// could not be analysed, unless the records have the standard output, and none for a
/// target that was analysed.
pub open spec fn outcome_diagnostics(channels: Channels, outcome: OutcomeView) -> Seq<Seq<char>> {
    match outcome {
        Ok(_) => Seq::empty(),
        Err(failed) => if channels.output_is_stdout {
            Seq::empty()
        } else {
            seq![diagnostic_text(channels, failed.0, failed.1)]
        },
    }
}

/// The records of the first `count` targets of a scan over a directory, in the order in
/// which the targets were reported.
pub open spec fn run_records(
    channels: Channels,
    rules: Seq<RuleInfo>,
    outcomes: Seq<OutcomeView>,
    count: nat,
) -> Seq<GroupRecordView>
    decreases count,
{
    if count == 0 {
        Seq::empty()
    } else {
        run_records(channels, rules, outcomes, (count - 1) as nat) + outcome_records(
            channels,
            rules,
            outcomes[count - 1],
        )
    }
}

/// The diagnostic lines of the first `count` targets of a scan over a directory.
pub open spec fn run_diagnostics(channels: Channels, outcomes: Seq<OutcomeView>, count: nat) -> Seq<
    Seq<char>,
>
    decreases count,
{
    if count == 0 {
        Seq::empty()
    } else {
        run_diagnostics(channels, outcomes, (count - 1) as nat) + outcome_diagnostics(
            channels,
            outcomes[count - 1],
        )
    }
}

/// The paths of those among the first `count` targets that were analysed.
pub open spec fn analysed_paths(outcomes: Seq<OutcomeView>, count: nat) -> Seq<Seq<char>>
    decreases count,
{
    if count == 0 {
        Seq::empty()
    } else {
        let before = analysed_paths(outcomes, (count - 1) as nat);
        match outcomes[count - 1] {
            Ok(found) => before.push(found.0),
            Err(_) => before,
        }
    }
}

/// The paths of those among the first `count` targets that could not be analysed.
pub open spec fn failed_paths(outcomes: Seq<OutcomeView>, count: nat) -> Seq<Seq<char>>
    decreases count,
{
    if count == 0 {
        Seq::empty()
    } else {
        let before = failed_paths(outcomes, (count - 1) as nat);
        match outcomes[count - 1] {
            Ok(_) => before,
            Err(failed) => before.push(failed.0),
        }
    }
}

/// The paths that a list of records names, record by record.
pub open spec fn record_paths(records: Seq<GroupRecordView>) -> Seq<Seq<char>> {
    Seq::new(records.len(), |i: int| records[i].path)
}

/// Whether `outcome` is that of a target at `path` that was analysed.
pub open spec fn analysed_at(outcome: OutcomeView, path: Seq<char>) -> bool {
    outcome matches Ok(found) && found.0 == path
}

/// Whether every target that was analysed came to exactly one group, and that group has
/// a match.
pub open spec fn one_finding_each(outcomes: Seq<OutcomeView>) -> bool {
    forall|i: int|
        0 <= i < outcomes.len() ==> ((#[trigger] outcomes[i]) matches Ok(found) ==> found.1.len()
            == 1 && found.1[0].results.len() > 0)
}

impl Reporter {
    /// The channels that are enabled.
    pub open spec fn channels(&self) -> Channels {
        Channels {
            display: self.display,
            summary: self.summary,
            output_is_stdout: self.output_is_stdout,
            has_writer: self.has_writer,
        }
    }

    /// What the reporter asks of the groups it is given.
    pub open spec fn accepts(&self, groups: Seq<GroupView>) -> bool {
        accepted(self.channels(), self.rules@, groups)
    }

    fn pretty_pass(&self, origin: &str, groups: &Vec<MatchResultGroup>) -> (text: String)
        requires
            forall|i: int|
                0 <= i < groups@.len() ==> (#[trigger] groups@[i])@.resolves_in(self.rules@)
                    && groups@[i]@.captured(),
        ensures
            exists|rendered: Seq<Seq<Seq<char>>>|
                renders(rendered, group_views(groups@)) && text@ == #[trigger] pretty_all(
                    group_views(groups@),
                    self.rules@,
                    origin@,
                    rendered,
                    groups@.len(),
                ),
    {
        let mut text = String::new();
        let ghost mut rendered: Seq<Seq<Seq<char>>> = Seq::empty();
        let mut index: usize = 0;
        while index < groups.len()
            invariant
                index <= groups@.len(),
                forall|i: int|
                    0 <= i < groups@.len() ==> (#[trigger] groups@[i])@.resolves_in(self.rules@)
                        && groups@[i]@.captured(),
                rendered.len() == index,
                forall|i: int|
                    0 <= i < index ==> (#[trigger] rendered[i]).len() == groups@[i]@.results.len(),
                text@ == pretty_all(
                    group_views(groups@),
                    self.rules@,
                    origin@,
                    rendered,
                    index as nat,
                ),
            decreases groups@.len() - index,
        {
            let group = &groups[index];
            let shown = group.display_pretty(&self.rules, origin, self.display_context);
            proof {
                let one = choose|one: Seq<Seq<char>>|
                    one.len() == group@.results.len() && shown@ == #[trigger] pretty_text(
                        group@,
                        self.rules@,
                        origin@,
                        one,
                        group@.results.len(),
                    );
                let before = rendered;
                rendered = rendered.push(one);
                lemma_pretty_all_extends(
                    group_views(groups@),
                    self.rules@,
                    origin@,
                    before,
                    rendered,
                    index as nat,
                );
            }
            text.append(shown.as_str());
            index = index + 1;
        }
        text
    }

    fn table_pass(&self, origin: &str, groups: &Vec<MatchResultGroup>) -> (text: String)
        requires
            forall|i: int|
                0 <= i < groups@.len() ==> (#[trigger] groups@[i])@.resolves_in(self.rules@),
        ensures
            text@ == tables_all(group_views(groups@), self.rules@, origin@, groups@.len()),
    {
        let mut text = String::new();
        let mut index: usize = 0;
        while index < groups.len()
            invariant
                index <= groups@.len(),
                forall|i: int|
                    0 <= i < groups@.len() ==> (#[trigger] groups@[i])@.resolves_in(self.rules@),
                text@ == tables_all(group_views(groups@), self.rules@, origin@, index as nat),
            decreases groups@.len() - index,
        {
            let group = &groups[index];
            if group.results.len() > 0 {
                let table = group.display_table(&self.rules, origin);
                text.append(table.as_str());
            } else {
                assert(text@ + Seq::<char>::empty() =~= text@);
            }
            index = index + 1;
        }
        text
    }

    fn record_pass(&self, origin: &str, groups: &Vec<MatchResultGroup>) -> (records: Vec<
        MatchResultGroupRecord,
    >)
        requires
            forall|i: int|
                0 <= i < groups@.len() ==> (#[trigger] groups@[i])@.resolves_in(self.rules@),
        ensures
            record_views(records@) == records_all(
                group_views(groups@),
                self.rules@,
                origin@,
                groups@.len(),
            ),
    {
        let mut records: Vec<MatchResultGroupRecord> = Vec::new();
        assert(record_views(records@) =~= Seq::<GroupRecordView>::empty());
        let mut index: usize = 0;
        while index < groups.len()
            invariant
                index <= groups@.len(),
                forall|i: int|
                    0 <= i < groups@.len() ==> (#[trigger] groups@[i])@.resolves_in(self.rules@),
                record_views(records@) == records_all(
                    group_views(groups@),
                    self.rules@,
                    origin@,
                    index as nat,
                ),
            decreases groups@.len() - index,
        {
            let group = &groups[index];
            if group.results.len() > 0 {
                group.write_record(&self.rules, origin, &mut records);
            }
            index = index + 1;
        }
        records
    }

    /// Hands the groups found at `origin` to every channel that is enabled. A group without
    /// matches reaches no channel.
    pub fn report(&self, origin: &str, groups: &Vec<MatchResultGroup>) -> (emission: Emission)
        requires
            self.accepts(group_views(groups@)),
        ensures
            exists|rendered: Seq<Seq<Seq<char>>>| #[trigger]
                emitted(
                    self.channels(),
                    self.rules@,
                    origin@,
                    group_views(groups@),
                    rendered,
                    emission,
                ),
            (forall|i: int| 0 <= i < groups@.len() ==> (#[trigger] groups@[i])@.results.len() == 0)
                ==> emission.console@.len() == 0 && emission.records@.len() == 0,
    {
        let ghost views = group_views(groups@);
        assert forall|i: int| 0 <= i < groups@.len() implies (#[trigger] groups@[i])@.resolves_in(
            self.rules@,
        ) && (self.display && !self.output_is_stdout ==> groups@[i]@.captured()) by {
            assert(views[i] == groups@[i]@);
        }
        let mut console = String::new();
        let ghost mut rendered: Seq<Seq<Seq<char>>> = Seq::new(
            groups@.len(),
            |i: int| Seq::new(groups@[i]@.results.len(), |j: int| Seq::<char>::empty()),
        );
        if !self.output_is_stdout {
            if self.display {
                let shown = self.pretty_pass(origin, groups);
                proof {
                    rendered = choose|rendered: Seq<Seq<Seq<char>>>|
                        renders(rendered, views) && shown@ == #[trigger] pretty_all(
                            views,
                            self.rules@,
                            origin@,
                            rendered,
                            groups@.len(),
                        );
                }
                console.append(shown.as_str());
            }
            if self.summary {
                let tabled = self.table_pass(origin, groups);
                console.append(tabled.as_str());
            }
        }
        let records = if self.has_writer {
            self.record_pass(origin, groups)
        } else {
            Vec::new()
        };
        let ghost channels = self.channels();
        assert(console@ =~= console_text(channels, self.rules@, origin@, views, rendered));
        assert(record_views(records@) =~= record_list(channels, self.rules@, origin@, views));
        let emission = Emission { console, records };
        assert(emitted(channels, self.rules@, origin@, views, rendered, emission));
        proof {
            if forall|i: int|
                0 <= i < groups@.len() ==> (#[trigger] groups@[i])@.results.len() == 0 {
                assert forall|i: int| 0 <= i < views.len() implies (#[trigger] views[i])
                    .results.len() == 0 by {
                    assert(views[i] == groups@[i]@);
                }
                lemma_nothing_for_empty_groups(channels, self.rules@, origin@, views, rendered);
            }
        }
        emission
    }

    /// The sink of a scan over many targets. For a target that was analysed, its groups
    /// go to the enabled channels; for one that failed, the console receives one line that
    /// names the target and the reason, and the scan goes on.
    pub fn process_task_result(&self, result: &TaskResult) -> (emission: Emission)
        requires
            result matches Ok(found) ==> self.accepts(group_views(found.1@)),
        ensures
            match result {
                Ok(found) => exists|rendered: Seq<Seq<Seq<char>>>| #[trigger]
                    emitted(
                        self.channels(),
                        self.rules@,
                        found.0@,
                        group_views(found.1@),
                        rendered,
                        emission,
                    ),
                Err(failed) => {
                    &&& emission.console@ == diagnostic_text(self.channels(), failed.0@, failed.1@)
                    &&& emission.records@.len() == 0
                },
            },
            record_views(emission.records@) == outcome_records(
                self.channels(),
                self.rules@,
                outcome_view(*result),
            ),
            result is Err && !self.output_is_stdout ==> outcome_diagnostics(
                self.channels(),
                outcome_view(*result),
            ) == seq![emission.console@],
    {
        match result {
            Ok(found) => self.report(found.0.as_str(), &found.1),
            Err(failed) => {
                let mut console = String::new();
                if !self.output_is_stdout {
                    console.append("failed to analyse ");
                    console.append(failed.0.as_str());
                    console.append(": ");
                    console.append(failed.1.as_str());
                    console.append("\n");
                }
                assert(console@ =~= diagnostic_text(self.channels(), failed.0@, failed.1@));
                let emission = Emission { console, records: Vec::new() };
                assert(record_views(emission.records@) =~= Seq::<GroupRecordView>::empty());
                emission
            },
        }
    }
}

/// The text of the first `count` groups does not depend on renderings past them.
proof fn lemma_pretty_all_extends(
    groups: Seq<GroupView>,
    rules: Seq<RuleInfo>,
    origin: Seq<char>,
    rendered: Seq<Seq<Seq<char>>>,
    longer: Seq<Seq<Seq<char>>>,
    count: nat,
)
    requires
        count <= rendered.len() <= longer.len(),
        forall|i: int| 0 <= i < count ==> rendered[i] == longer[i],
    ensures
        pretty_all(groups, rules, origin, rendered, count) == pretty_all(
            groups,
            rules,
            origin,
            longer,
            count,
        ),
    decreases count,
{
    if count > 0 {
        lemma_pretty_all_extends(groups, rules, origin, rendered, longer, (count - 1) as nat);
    }
}

/// A group without matches is never emitted: where no group has a match, the console
/// receives no text and the durable output no record, whatever channels are enabled.
pub proof fn lemma_nothing_for_empty_groups(
    channels: Channels,
    rules: Seq<RuleInfo>,
    origin: Seq<char>,
    groups: Seq<GroupView>,
    rendered: Seq<Seq<Seq<char>>>,
)
    requires
        forall|i: int| 0 <= i < groups.len() ==> (#[trigger] groups[i]).results.len() == 0,
    ensures
        console_text(channels, rules, origin, groups, rendered).len() == 0,
        record_list(channels, rules, origin, groups).len() == 0,
{
    lemma_empty_prefix(groups, rules, origin, rendered, groups.len());
}

proof fn lemma_empty_prefix(
    groups: Seq<GroupView>,
    rules: Seq<RuleInfo>,
    origin: Seq<char>,
    rendered: Seq<Seq<Seq<char>>>,
    count: nat,
)
    requires
        count <= groups.len(),
        forall|i: int| 0 <= i < groups.len() ==> (#[trigger] groups[i]).results.len() == 0,
    ensures
        pretty_all(groups, rules, origin, rendered, count).len() == 0,
        tables_all(groups, rules, origin, count).len() == 0,
        records_all(groups, rules, origin, count).len() == 0,
    decreases count,
{
    if count > 0 {
        lemma_empty_prefix(groups, rules, origin, rendered, (count - 1) as nat);
        assert(groups[count - 1].results.len() == 0);
    }
}

/// In a scan over a directory, every record names a target that was analysed: a target
/// that could not be analysed leaves no record.
pub proof fn lemma_records_name_analysed_targets(
    channels: Channels,
    rules: Seq<RuleInfo>,
    outcomes: Seq<OutcomeView>,
    index: int,
)
    requires
        0 <= index < run_records(channels, rules, outcomes, outcomes.len()).len(),
    ensures
        exists|target: int|
            0 <= target < outcomes.len() && analysed_at(
                #[trigger] outcomes[target],
                run_records(channels, rules, outcomes, outcomes.len())[index].path,
            ),
{
    let target = lemma_record_source(channels, rules, outcomes, outcomes.len(), index);
    assert(analysed_at(
        outcomes[target],
        run_records(channels, rules, outcomes, outcomes.len())[index].path,
    ));
}

proof fn lemma_record_source(
    channels: Channels,
    rules: Seq<RuleInfo>,
    outcomes: Seq<OutcomeView>,
    count: nat,
    index: int,
) -> (target: int)
    requires
        count <= outcomes.len(),
        0 <= index < run_records(channels, rules, outcomes, count).len(),
    ensures
        0 <= target < count,
        analysed_at(outcomes[target], run_records(channels, rules, outcomes, count)[index].path),
    decreases count,
{
    let before = run_records(channels, rules, outcomes, (count - 1) as nat);
    if index < before.len() {
        lemma_record_source(channels, rules, outcomes, (count - 1) as nat, index)
    } else {
        match outcomes[count - 1] {
            Ok(found) => {
                lemma_records_keep_origin(
                    found.1,
                    rules,
                    found.0,
                    found.1.len(),
                    index - before.len(),
                );
            },
            Err(_) => {},
        }
        count - 1
    }
}

proof fn lemma_records_keep_origin(
    groups: Seq<GroupView>,
    rules: Seq<RuleInfo>,
    origin: Seq<char>,
    count: nat,
    index: int,
)
    requires
        count <= groups.len(),
        0 <= index < records_all(groups, rules, origin, count).len(),
    ensures
        records_all(groups, rules, origin, count)[index].path == origin,
    decreases count,
{
    if count > 0 {
        let before = records_all(groups, rules, origin, (count - 1) as nat);
        if index < before.len() {
            lemma_records_keep_origin(groups, rules, origin, (count - 1) as nat, index);
        }
    }
}

/// In a scan over a directory that writes its records to a file, every target is
/// accounted for exactly once, as long as every target that was analysed came to one
/// group with a match: the records name the targets that were analysed, one record each
/// and in the order in which they were reported, and the console has one diagnostic line
/// for each target that could not be analysed.
pub proof fn lemma_run_accounts_for_every_target(
    channels: Channels,
    rules: Seq<RuleInfo>,
    outcomes: Seq<OutcomeView>,
)
    requires
        channels.has_writer,
        !channels.output_is_stdout,
        one_finding_each(outcomes),
    ensures
        record_paths(run_records(channels, rules, outcomes, outcomes.len())) == analysed_paths(
            outcomes,
            outcomes.len(),
        ),
        run_diagnostics(channels, outcomes, outcomes.len()).len() == failed_paths(
            outcomes,
            outcomes.len(),
        ).len(),
        run_records(channels, rules, outcomes, outcomes.len()).len() + run_diagnostics(
            channels,
            outcomes,
            outcomes.len(),
        ).len() == outcomes.len(),
{
    lemma_run_prefix(channels, rules, outcomes, outcomes.len());
}

proof fn lemma_run_prefix(
    channels: Channels,
    rules: Seq<RuleInfo>,
    outcomes: Seq<OutcomeView>,
    count: nat,
)
    requires
        channels.has_writer,
        !channels.output_is_stdout,
        one_finding_each(outcomes),
        count <= outcomes.len(),
    ensures
        record_paths(run_records(channels, rules, outcomes, count)) == analysed_paths(
            outcomes,
            count,
        ),
        run_diagnostics(channels, outcomes, count).len() == failed_paths(outcomes, count).len(),
        analysed_paths(outcomes, count).len() + failed_paths(outcomes, count).len() == count,
    decreases count,
{
    if count == 0 {
        assert(record_paths(run_records(channels, rules, outcomes, count)) =~= analysed_paths(
            outcomes,
            count,
        ));
    } else {
        lemma_run_prefix(channels, rules, outcomes, (count - 1) as nat);
        let before = run_records(channels, rules, outcomes, (count - 1) as nat);
        match outcomes[count - 1] {
            Ok(found) => {
                let groups = found.1;
                assert(records_all(groups, rules, found.0, 1) == records_all(
                    groups,
                    rules,
                    found.0,
                    0,
                ).push(record_of(groups[0], rules, found.0)));
                assert(outcome_records(channels, rules, outcomes[count - 1]) =~= seq![
                    record_of(groups[0], rules, found.0),
                ]);
                assert(record_paths(run_records(channels, rules, outcomes, count))
                    =~= analysed_paths(outcomes, count));
            },
            Err(failed) => {
                assert(run_records(channels, rules, outcomes, count) =~= before);
            },
        }
    }
}

} // verus!
