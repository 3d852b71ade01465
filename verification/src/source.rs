//! Source mode: a target is a file of C or C++ text, matched as a whole.

use vstd::prelude::*;
use weggli_ruleset::RuleSet;

use crate::common::{GroupView, MatchResult, MatchResultGroup};
use crate::config::{Configuration, ScanPlan};
use crate::error::{AnalysisError, ConfigError, ScanError};
use crate::filter::{AnalysisMode, TargetFilter};
use crate::matcher::{find_matches, matcher_builds, matches_of, maybe_matches, new_matcher};
use crate::reporter::{diagnostic_text, emitted, group_views, Emission, Reporter, TaskResult};
use crate::rules::rule_entries;

verus! {

/// The mode of a source scan: C++ if `cxx`, C otherwise.
pub open spec fn source_mode(cxx: bool) -> AnalysisMode {
    if cxx {
        AnalysisMode::Cxx
    } else {
        AnalysisMode::C
    }
}

/// The group for a source file with text `source` in which `found` was matched.
pub open spec fn text_group(source: Seq<char>, found: Seq<MatchResult>) -> GroupView {
    GroupView { source, function_name: None, function_address: None, results: found }
}

/// What the analysis of one source file comes to. `contents` is the file's text, or
/// nothing where it could not be read. A file that cannot be read cannot be opened; then
/// a matcher is made from the rules, and the text is matched as a whole. The group holds
/// whatever was found, also where that is nothing.
pub open spec fn analysed_text(contents: Option<Seq<char>>, cxx: bool, rules: RuleSet) -> Result<
    GroupView,
    AnalysisError,
> {
    match contents {
        None => Err(AnalysisError::CannotOpen),
        Some(text) => if !matcher_builds(rules) {
            Err(AnalysisError::InvalidRules)
        } else {
            match matches_of(rules, text, cxx) {
                Some(found) => Ok(text_group(text, found)),
                None => Err(AnalysisError::MatchFailed),
            }
        },
    }
}

/// The view of what the analysis of a source file came to.
pub open spec fn text_outcome(analysed: Result<MatchResultGroup, AnalysisError>) -> Result<
    GroupView,
    AnalysisError,
> {
    match analysed {
        Ok(group) => Ok(group@),
        Err(error) => Err(error),
    }
}

/// What one source file came to: its path with the group found, or its path with the
/// reason why it could not be analysed.
pub type SourceTaskResult = Result<(String, MatchResultGroup), (String, String)>;

fn mode_for(cxx: bool) -> (mode: AnalysisMode)
    ensures
        mode == source_mode(cxx),
{
    if cxx {
        AnalysisMode::Cxx
    } else {
        AnalysisMode::C
    }
}

/// Decides how a source scan proceeds: over the files of a directory, on the single
/// input, or not at all where the single input does not pass the filter.
pub fn scan(config: &Configuration, cxx: bool) -> (plan: Result<ScanPlan, ConfigError>)
    ensures
        plan == config.planned(source_mode(cxx)),
        plan is Ok <==> config.valid(),
        rule_entries(config.rules).len() == 0 ==> plan is Err,
        config.display && config.summary ==> plan is Err,
{
    config.plan(mode_for(cxx))
}

/// The group for a source file, given what the matcher found in its text: the matches
/// as they came, also where there are none, or that the matcher failed.
pub fn group_of_text(source: String, found: Option<Vec<MatchResult>>) -> (made: Result<
    MatchResultGroup,
    AnalysisError,
>)
    ensures
        text_outcome(made) == match maybe_matches(found) {
            Some(matches) => Ok(text_group(source@, matches)),
            None => Err(AnalysisError::MatchFailed),
        },
{
    match found {
        Some(matches) => Ok(MatchResultGroup::new(source, matches)),
        None => Err(AnalysisError::MatchFailed),
    }
}

/// Analyses one source file. `contents` is the file's text, or nothing where it could not
/// be read. The text is matched as a whole with the grammar that `cxx` selects, and the
/// group holds whatever was found.
pub fn scan_aux(contents: Option<String>, cxx: bool, rules: RuleSet) -> (analysed: Result<
    MatchResultGroup,
    AnalysisError,
>)
    ensures
        text_outcome(analysed) == analysed_text(contents.deep_view(), cxx, rules),
        analysed matches Ok(group) ==> group@.resolves_in(rule_entries(rules))
            && group@.captured(),
{
    let text = match contents {
        Some(text) => text,
        None => {
            return Err(AnalysisError::CannotOpen);
        },
    };
    let mut matcher = match new_matcher(rules) {
        Ok(matcher) => matcher,
        Err(_) => {
            return Err(AnalysisError::InvalidRules);
        },
    };
    let found = find_matches(&mut matcher, text.as_str(), cxx);
    let ghost source = text@;
    let analysed = group_of_text(text, found);
    proof {
        if analysed is Ok {
            assert(analysed.unwrap()@.results == found.unwrap()@);
            assert(analysed.unwrap()@.source == source);
        }
    }
    analysed
}

/// The groups that a scan of a single source file comes to, before anything is reported.
/// A configuration that is not valid is refused. An input that does not pass the filter
/// is skipped, which is no error: there are no groups then, and the file is not looked
/// at. Otherwise the file is analysed, and a failure of the analysis fails the scan.
pub open spec fn scanned_text(config: Configuration, cxx: bool, contents: Option<Seq<char>>)
    -> Result<Seq<GroupView>, ScanError> {
    match config.refused() {
        Some(error) => Err(ScanError::Config(error)),
        None => if !config.filter(source_mode(cxx)).accepts(config.input@) {
            Ok(Seq::empty())
        } else {
            match analysed_text(contents, cxx, config.rules) {
                Ok(group) => Ok(seq![group]),
                Err(error) => Err(ScanError::Analysis(error)),
            }
        },
    }
}

/// Scans a single source file and reports what was found. `contents` is the text of the
/// input, or nothing where it could not be read; it is looked at only if the input
/// passes the filter. A failure of the analysis ends the scan, since there is nothing
/// else to scan.
pub fn scan_one(config: &Configuration, cxx: bool, contents: Option<String>) -> (scanned: Result<
    Emission,
    ScanError,
>)
    ensures
        scanned matches Ok(emission) ==> scanned_text(*config, cxx, contents.deep_view()) is Ok
            && exists|rendered: Seq<Seq<Seq<char>>>| #[trigger]
            emitted(
                config.channels(),
                rule_entries(config.rules),
                config.input@,
                scanned_text(*config, cxx, contents.deep_view()).unwrap(),
                rendered,
                emission,
            ),
        scanned matches Err(error) ==> scanned_text(*config, cxx, contents.deep_view()) == Err::<
            Seq<GroupView>,
            ScanError,
        >(error),
{
    let reporter = match config.reporter() {
        Ok(reporter) => reporter,
        Err(error) => {
            return Err(ScanError::Config(error));
        },
    };
    let mut groups: Vec<MatchResultGroup> = Vec::new();
    assert(group_views(groups@) =~= Seq::<GroupView>::empty());
    if config.target_filter(mode_for(cxx)).matches(config.input.as_str()) {
        let group = match scan_aux(contents, cxx, config.rules.clone()) {
            Ok(group) => group,
            Err(error) => {
                return Err(ScanError::Analysis(error));
            },
        };
        let ghost found = group@;
        groups.push(group);
        assert(group_views(groups@) =~= seq![found]);
    }
    let scanned: Result<Emission, ScanError> = Ok(reporter.report(config.input.as_str(), &groups));
    proof {
        assert(config.refused() is None);
        assert(scanned_text(*config, cxx, contents.deep_view()) == Ok::<Seq<GroupView>, ScanError>(
            group_views(groups@),
        ));
        let rendered = choose|rendered: Seq<Seq<Seq<char>>>| #[trigger]
            emitted(
                reporter.channels(),
                reporter.rules@,
                config.input@,
                group_views(groups@),
                rendered,
                scanned.unwrap(),
            );
        assert(emitted(
            config.channels(),
            rule_entries(config.rules),
            config.input@,
            scanned_text(*config, cxx, contents.deep_view()).unwrap(),
            rendered,
            scanned.unwrap(),
        ));
    }
    scanned
}

/// The worker of a scan over many source files: it analyses one file and keeps nothing
/// from one file to the next.
#[derive(Clone)]
pub struct SourceCodeProcessor {
    pub rules: RuleSet,
    pub cxx: bool,
}

impl SourceCodeProcessor {
    /// Analyses the file at `input`, whose text is `contents` (nothing where it could not
    /// be read), and hands back the path with the group found or with the reason for the
    /// failure.
    pub fn process_task(&self, input: String, contents: Option<String>) -> (result:
        SourceTaskResult)
        ensures
            match result {
                Ok(found) => {
                    &&& found.0@ == input@
                    &&& analysed_text(contents.deep_view(), self.cxx, self.rules) == Ok::<
                        GroupView,
                        AnalysisError,
                    >(found.1@)
                    &&& found.1@.resolves_in(rule_entries(self.rules))
                    &&& found.1@.captured()
                },
                Err(failed) => {
                    &&& failed.0@ == input@
                    &&& analysed_text(contents.deep_view(), self.cxx, self.rules) matches Err(
                        error,
                    ) && failed.1@ == error.message_text(source_mode(self.cxx))
                },
            },
    {
        match scan_aux(contents, self.cxx, self.rules.clone()) {
            Ok(group) => Ok((input, group)),
            Err(error) => Err((input, error.message(mode_for(self.cxx)))),
        }
    }
}

/// The sink of a scan over many source files. For a file that was analysed, its group
/// goes to the enabled channels unless it is empty; for one that failed, the console
/// receives one line that names the file and the reason, and the scan goes on.
pub fn process_task_result(reporter: &Reporter, result: SourceTaskResult) -> (emission: Emission)
    requires
        result matches Ok(found) ==> reporter.accepts(seq![found.1@]),
    ensures
        match result {
            Ok(found) => {
                &&& exists|rendered: Seq<Seq<Seq<char>>>| #[trigger]
                    emitted(
                        reporter.channels(),
                        reporter.rules@,
                        found.0@,
                        seq![found.1@],
                        rendered,
                        emission,
                    )
                &&& found.1@.results.len() == 0 ==> emission.console@.len() == 0
                    && emission.records@.len() == 0
            },
            Err(failed) => {
                &&& emission.console@ == diagnostic_text(reporter.channels(), failed.0@, failed.1@)
                &&& emission.records@.len() == 0
            },
        },
{
    match result {
        Ok(found) => {
            let path = found.0;
            let mut groups: Vec<MatchResultGroup> = Vec::new();
            groups.push(found.1);
            assert(group_views(groups@) =~= seq![found.1@]);
            reporter.report(path.as_str(), &groups)
        },
        Err(failed) => {
            let outcome: TaskResult = Err(failed);
            reporter.process_task_result(&outcome)
        },
    }
}

/// Sets up a scan over the source files of a directory: the filter that says which files
/// are targets, the worker that analyses one file, and the reporter that receives what
/// each file came to.
pub fn scan_many(config: &Configuration, cxx: bool) -> (roles: Result<
    (TargetFilter, SourceCodeProcessor, Reporter),
    ConfigError,
>)
    ensures
        roles is Ok <==> config.valid(),
        roles matches Ok(made) ==> {
            &&& made.0 == config.filter(source_mode(cxx))
            &&& made.1.rules == config.rules
            &&& made.1.cxx == cxx
            &&& made.2.rules@ == rule_entries(config.rules)
            &&& made.2.channels() == config.channels()
            &&& made.2.display_context == config.display_context
        },
        roles matches Err(error) ==> config.refused() == Some(error),
{
    let reporter = match config.reporter() {
        Ok(reporter) => reporter,
        Err(error) => {
            return Err(error);
        },
    };
    let filter = config.target_filter(mode_for(cxx));
    let processor = SourceCodeProcessor { rules: config.rules.clone(), cxx };
    Ok((filter, processor, reporter))
}

} // verus!
