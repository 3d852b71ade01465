//! Binary mode: a target is a binary or its decompilation database, matched function by
//! function on the pseudocode that the decompiler gives.

use vstd::prelude::*;
use weggli_ruleset::matcher::RuleMatcher;
use weggli_ruleset::RuleSet;

use crate::common::{clone_text, GroupView, MatchResult, MatchResultGroup};
use crate::config::{Configuration, ScanPlan};
use crate::error::{AnalysisError, ConfigError, ScanError};
use crate::filter::{AnalysisMode, TargetFilter};
use crate::matcher::{
    find_matches, matcher_builds, matcher_set, matches_of, maybe_matches, new_matcher,
};
use crate::reporter::{emitted, group_views, Emission, Reporter, TaskResult};
use crate::rules::{rule_entries, RuleInfo};

verus! {

/// One function of a decompilation database.
#[derive(Clone, Debug)]
pub struct DecompiledFunction {
    /// The function's name, where it has one.
    pub name: Option<String>,
    /// The address at which the function starts.
    pub address: u64,
    /// The function's pseudocode, or nothing where the decompiler failed on it.
    pub pseudocode: Option<String>,
}

/// A [`DecompiledFunction`] as contracts see it.
pub struct FunctionView {
    pub name: Option<Seq<char>>,
    pub address: u64,
    pub pseudocode: Option<Seq<char>>,
}

impl View for DecompiledFunction {
    type V = FunctionView;

    open spec fn view(&self) -> FunctionView {
        FunctionView {
            name: self.name.deep_view(),
            address: self.address,
            pseudocode: self.pseudocode.deep_view(),
        }
    }
}

/// What was read from the decompilation database of one target.
#[derive(Clone, Debug)]
pub struct Database {
    /// Whether the database has a decompiler at all.
    pub decompiler_available: bool,
    /// The functions of the database, in its order.
    pub functions: Vec<DecompiledFunction>,
}

/// The views of a list of functions.
pub open spec fn function_views(functions: Seq<DecompiledFunction>) -> Seq<FunctionView> {
    Seq::new(functions.len(), |i: int| functions[i]@)
}

/// The view of what may be a group.
pub open spec fn maybe_group(made: Option<MatchResultGroup>) -> Option<GroupView> {
    match made {
        Some(group) => Some(group@),
        None => None,
    }
}

/// The group for one function, where `found` is what the matcher found in its pseudocode,
/// or nothing where the matcher failed or was not asked. A function without pseudocode,
/// one on which the matcher failed and one without a match have no group.
pub open spec fn function_group(function: FunctionView, found: Option<Seq<MatchResult>>) -> Option<
    GroupView,
> {
    match (function.pseudocode, found) {
        (Some(text), Some(matches)) => if matches.len() > 0 {
            Some(
                GroupView {
                    source: text,
                    function_name: function.name,
                    function_address: Some(function.address),
                    results: matches,
                },
            )
        } else {
            None
        },
        _ => None,
    }
}

/// What the matcher finds in the pseudocode of a function; nothing where the function
/// has no pseudocode or the matcher fails on it.
pub open spec fn function_matches(rules: RuleSet, function: FunctionView) -> Option<
    Seq<MatchResult>,
> {
    match function.pseudocode {
        Some(text) => matches_of(rules, text, false),
        None => None,
    }
}

/// The group of one function under `rules`, if it has one.
pub open spec fn matched_group(rules: RuleSet, function: FunctionView) -> Option<GroupView> {
    function_group(function, function_matches(rules, function))
}

/// The groups of the first `count` functions under `rules`, in the functions' order.
pub open spec fn collected(rules: RuleSet, functions: Seq<FunctionView>, count: nat) -> Seq<
    GroupView,
>
    decreases count,
{
    if count == 0 {
        Seq::empty()
    } else {
        let before = collected(rules, functions, (count - 1) as nat);
        match matched_group(rules, functions[count - 1]) {
            Some(group) => before.push(group),
            None => before,
        }
    }
}

/// What the analysis of one target comes to. `database` is what was read from the
/// target's decompilation database, or nothing where none could be opened. A target
/// without a database cannot be opened; a database without a decompiler fails the whole
/// target; then a matcher is made from the rules, and the groups are those of the
/// functions that have a match.
pub open spec fn analysed_database(database: Option<Database>, rules: RuleSet) -> Result<
    Seq<GroupView>,
    AnalysisError,
> {
    match database {
        None => Err(AnalysisError::CannotOpen),
        Some(opened) => if !opened.decompiler_available {
            Err(AnalysisError::DecompilerUnavailable)
        } else if !matcher_builds(rules) {
            Err(AnalysisError::InvalidRules)
        } else {
            Ok(collected(rules, function_views(opened.functions@), opened.functions@.len()))
        },
    }
}

/// The view of what the analysis of a target came to.
pub open spec fn database_outcome(analysed: Result<Vec<MatchResultGroup>, AnalysisError>) -> Result<
    Seq<GroupView>,
    AnalysisError,
> {
    match analysed {
        Ok(groups) => Ok(group_views(groups@)),
        Err(error) => Err(error),
    }
}

/// The groups that a scan of a single binary comes to, before anything is reported. A
/// configuration that is not valid is refused. An input that does not pass the filter is
/// skipped, which is no error: there are no groups then, and the target is not looked
/// at. Otherwise the target is analysed, and a failure of the analysis fails the scan.
pub open spec fn scanned_database(config: Configuration, database: Option<Database>) -> Result<
    Seq<GroupView>,
    ScanError,
> {
    match config.refused() {
        Some(error) => Err(ScanError::Config(error)),
        None => if !config.filter(AnalysisMode::Binary).accepts(config.input@) {
            Ok(Seq::empty())
        } else {
            match analysed_database(database, config.rules) {
                Ok(groups) => Ok(groups),
                Err(error) => Err(ScanError::Analysis(error)),
            }
        },
    }
}

/// What holds of every group that an analysis hands out: it has a match, every match
/// resolves against `rules`, and every match was captured in the group's text.
pub open spec fn sound_groups(groups: Seq<GroupView>, rules: Seq<RuleInfo>) -> bool {
    forall|i: int|
        0 <= i < groups.len() ==> {
            &&& (#[trigger] groups[i]).results.len() > 0
            &&& groups[i].resolves_in(rules)
            &&& groups[i].captured()
        }
}

/// Decides how a binary scan proceeds: over the files of a directory, on the single
/// input, or not at all where the single input does not pass the filter.
pub fn scan(config: &Configuration) -> (plan: Result<ScanPlan, ConfigError>)
    ensures
        plan == config.planned(AnalysisMode::Binary),
        plan is Ok <==> config.valid(),
        rule_entries(config.rules).len() == 0 ==> plan is Err,
        config.display && config.summary ==> plan is Err,
{
    config.plan(AnalysisMode::Binary)
}

/// The group for one function, given what the matcher found in its pseudocode.
pub fn group_of_function(function: &DecompiledFunction, found: Option<Vec<MatchResult>>) -> (made:
    Option<MatchResultGroup>)
    ensures
        maybe_group(made) == function_group(function@, maybe_matches(found)),
{
    match (&function.pseudocode, found) {
        (Some(text), Some(matches)) => {
            if matches.len() > 0 {
                Some(
                    MatchResultGroup::new_with(
                        clone_text(&function.name),
                        Some(function.address),
                        text.clone(),
                        matches,
                    ),
                )
            } else {
                None
            }
        },
        _ => None,
    }
}

/// Matches one function. One without pseudocode is passed over, and so is one on which
/// the matcher fails; neither ends the analysis of the target.
pub fn scan_function(matcher: &mut RuleMatcher, function: &DecompiledFunction) -> (made: Option<
    MatchResultGroup,
>)
    ensures
        matcher_set(*final(matcher)) == matcher_set(*old(matcher)),
        maybe_group(made) == matched_group(matcher_set(*old(matcher)), function@),
        made matches Some(group) ==> {
            &&& group@.results.len() > 0
            &&& group@.resolves_in(rule_entries(matcher_set(*old(matcher))))
            &&& group@.captured()
        },
{
    match &function.pseudocode {
        Some(text) => {
            let found = find_matches(matcher, text.as_str(), false);
            let made = group_of_function(function, found);
            proof {
                if made is Some {
                    assert(made.unwrap()@.results == found.unwrap()@);
                    assert(made.unwrap()@.source == text@);
                }
            }
            made
        },
        None => None,
    }
}

/// Analyses one target. `database` is what was read from its decompilation database, or
/// nothing where none could be opened. A database without a decompiler fails the whole
/// target; otherwise every function is matched in turn and the groups of those with a
/// match are handed back, in the functions' order.
pub fn scan_aux(database: Option<Database>, rules: RuleSet) -> (analysed: Result<
    Vec<MatchResultGroup>,
    AnalysisError,
>)
    ensures
        database_outcome(analysed) == analysed_database(database, rules),
        analysed matches Ok(groups) ==> sound_groups(group_views(groups@), rule_entries(rules)),
{
    let opened = match database {
        Some(opened) => opened,
        None => {
            return Err(AnalysisError::CannotOpen);
        },
    };
    if !opened.decompiler_available {
        return Err(AnalysisError::DecompilerUnavailable);
    }
    let mut matcher = match new_matcher(rules) {
        Ok(matcher) => matcher,
        Err(_) => {
            return Err(AnalysisError::InvalidRules);
        },
    };
    let ghost functions = function_views(opened.functions@);
    let mut groups: Vec<MatchResultGroup> = Vec::new();
    let mut index: usize = 0;
    assert(group_views(groups@) =~= collected(rules, functions, 0));
    while index < opened.functions.len()
        invariant
            index <= opened.functions@.len(),
            functions == function_views(opened.functions@),
            matcher_set(matcher) == rules,
            group_views(groups@) == collected(rules, functions, index as nat),
            sound_groups(group_views(groups@), rule_entries(rules)),
        decreases opened.functions@.len() - index,
    {
        let made = scan_function(&mut matcher, &opened.functions[index]);
        let ghost earlier = group_views(groups@);
        assert(functions[index as int] == opened.functions@[index as int]@);
        match made {
            Some(group) => {
                groups.push(group);
                assert(group_views(groups@) =~= earlier.push(group@));
            },
            None => {},
        }
        index = index + 1;
    }
    let analysed: Result<Vec<MatchResultGroup>, AnalysisError> = Ok(groups);
    assert(database_outcome(analysed) == analysed_database(database, rules));
    analysed
}

/// Scans a single binary and reports what was found. `database` is what was read from
/// the database of the input, or nothing where none could be opened; it is looked at only
/// if the input passes the filter. A failure of the analysis ends the scan, since there
/// is nothing else to scan.
pub fn scan_one(config: &Configuration, database: Option<Database>) -> (scanned: Result<
    Emission,
    ScanError,
>)
    ensures
        scanned matches Ok(emission) ==> scanned_database(*config, database) is Ok && exists|
            rendered: Seq<Seq<Seq<char>>>,
        | #[trigger]
            emitted(
                config.channels(),
                rule_entries(config.rules),
                config.input@,
                scanned_database(*config, database).unwrap(),
                rendered,
                emission,
            ),
        scanned matches Err(error) ==> scanned_database(*config, database) == Err::<
            Seq<GroupView>,
            ScanError,
        >(error),
{
    let reporter = match config.reporter() {
        Ok(reporter) => reporter,
        Err(error) => {
            return Err(ScanError::Config(error));
        },
    };
    let groups = if config.target_filter(AnalysisMode::Binary).matches(config.input.as_str()) {
        match scan_aux(database, config.rules.clone()) {
            Ok(groups) => groups,
            Err(error) => {
                return Err(ScanError::Analysis(error));
            },
        }
    } else {
        let skipped: Vec<MatchResultGroup> = Vec::new();
        assert(group_views(skipped@) =~= Seq::<GroupView>::empty());
        skipped
    };
    let scanned: Result<Emission, ScanError> = Ok(reporter.report(config.input.as_str(), &groups));
    proof {
        assert(config.refused() is None);
        assert(scanned_database(*config, database) == Ok::<Seq<GroupView>, ScanError>(
            group_views(groups@),
        ));
        let rendered = choose|rendered: Seq<Seq<Seq<char>>>| #[trigger]
            emitted(
                reporter.channels(),
                reporter.rules@,
                config.input@,
                group_views(groups@),
                rendered,
                scanned.unwrap(),
            );
        assert(emitted(
            config.channels(),
            rule_entries(config.rules),
            config.input@,
            scanned_database(*config, database).unwrap(),
            rendered,
            scanned.unwrap(),
        ));
    }
    scanned
}

/// The worker of a scan over many binaries: it analyses one target and keeps nothing
/// from one target to the next.
#[derive(Clone)]
pub struct IDAProcessor {
    pub rules: RuleSet,
}

impl IDAProcessor {
    /// Analyses the target at `input`, given what was read from its database (nothing
    /// where none could be opened), and hands back the path with the groups found or with
    /// the reason for the failure.
    pub fn process_task(&self, input: String, database: Option<Database>) -> (result: TaskResult)
        ensures
            match result {
                Ok(done) => {
                    &&& done.0@ == input@
                    &&& analysed_database(database, self.rules) == Ok::<
                        Seq<GroupView>,
                        AnalysisError,
                    >(group_views(done.1@))
                    &&& sound_groups(group_views(done.1@), rule_entries(self.rules))
                },
                Err(failed) => {
                    &&& failed.0@ == input@
                    &&& analysed_database(database, self.rules) matches Err(error) && failed.1@
                        == error.message_text(AnalysisMode::Binary)
                },
            },
    {
        match scan_aux(database, self.rules.clone()) {
            Ok(groups) => Ok((input, groups)),
            Err(error) => Err((input, error.message(AnalysisMode::Binary))),
        }
    }
}

/// Sets up a scan over the binaries of a directory: the filter that says which files are
/// targets, the worker that analyses one target, and the reporter that receives what each
/// target came to.
pub fn scan_many(config: &Configuration) -> (roles: Result<
    (TargetFilter, IDAProcessor, Reporter),
    ConfigError,
>)
    ensures
        roles is Ok <==> config.valid(),
        roles matches Ok(made) ==> {
            &&& made.0 == config.filter(AnalysisMode::Binary)
            &&& made.1.rules == config.rules
            &&& made.2.rules@ == rule_entries(config.rules)
            &&& made.2.channels() == config.channels()
            &&& made.2.display_context == config.display_context
        },
        roles matches Err(error) ==> config.refused() == Some(error),
{
    let reporter = match config.reporter() {
        Ok(reporter) => reporter,
        Err(error) => {
            return Err(error);
        },
    };
    let filter = config.target_filter(AnalysisMode::Binary);
    let processor = IDAProcessor { rules: config.rules.clone() };
    Ok((filter, processor, reporter))
}

} // verus!
