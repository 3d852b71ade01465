//! The configuration of a scan, and the rules by which one is accepted.

use regex::RegexSet;
use vstd::prelude::*;
use vstd::string::*;
use weggli_ruleset::RuleSet;

use crate::error::ConfigError;
use crate::filter::{
    compile_set, error_message, patterns_compile, set_patterns, AnalysisMode, TargetFilter,
};
use crate::reporter::{Channels, Reporter};
use crate::rules::{rule_count, rule_entries, RuleTable};

verus! {

/// What to scan, with which rules, and where the findings go.
#[derive(Clone)]
pub struct Configuration {
    pub rules: RuleSet,
    /// The file or directory to scan.
    pub input: String,
    /// The input is a directory: every qualifying file below it is a target.
    pub multi_input: bool,
    pub path_filters: Option<RegexSet>,
    /// Show each match in its context on the console.
    pub display: bool,
    pub display_context: usize,
    /// Show a summary table on the console.
    pub summary: bool,
    /// The durable records go to the standard output.
    pub output_is_stdout: bool,
    /// Durable records are wanted.
    pub has_writer: bool,
}

/// How a scan proceeds, decided once at its start.
#[derive(Clone, Copy, Debug, PartialEq, Eq, Structural)]
pub enum ScanPlan {
    /// The one input does not pass the filter: there is nothing to do, and that is no
    /// error.
    Skip,
    /// The one input is analysed and reported.
    Single,
    /// The input is a directory: the files below it that qualify are analysed side by
    /// side and reported one by one.
    Multi,
}

/// Whether an output argument means the standard output.
pub open spec fn names_stdout(output: Seq<char>) -> bool {
    output == "-"@
}

/// The first reason to refuse channels like these, if there is one: the two console
/// channels exclude each other, and some channel must have a place to write to.
pub open spec fn outputs_refusal(
    display: bool,
    summary: bool,
    has_writer: bool,
    output_is_stdout: bool,
) -> Option<ConfigError> {
    if display && summary {
        Some(ConfigError::ConflictingOutputs)
    } else if !has_writer && (output_is_stdout || !(display || summary)) {
        Some(ConfigError::NoOutput)
    } else {
        None
    }
}

/// The first reason to refuse channels and a number of rules like these, if there is one.
/// The channels are looked at first.
pub open spec fn refusal(
    display: bool,
    summary: bool,
    has_writer: bool,
    output_is_stdout: bool,
    rules: nat,
) -> Option<ConfigError> {
    match outputs_refusal(display, summary, has_writer, output_is_stdout) {
        Some(error) => Some(error),
        None => if rules == 0 {
            Some(ConfigError::NoRules)
        } else {
            None
        },
    }
}

/// Accepts the output channels of a scan, or gives the first reason to refuse them.
pub fn check_outputs(
    display: bool,
    summary: bool,
    has_writer: bool,
    output_is_stdout: bool,
) -> (checked: Result<(), ConfigError>)
    ensures
        match checked {
            Ok(_) => outputs_refusal(display, summary, has_writer, output_is_stdout) is None,
            Err(error) => outputs_refusal(display, summary, has_writer, output_is_stdout) == Some(
                error,
            ),
        },
        display && summary ==> checked is Err,
{
    if display && summary {
        Err(ConfigError::ConflictingOutputs)
    } else if !has_writer && (output_is_stdout || !(display || summary)) {
        Err(ConfigError::NoOutput)
    } else {
        Ok(())
    }
}

impl Configuration {
    /// The first reason to refuse this configuration, if there is one.
    pub open spec fn refused(&self) -> Option<ConfigError> {
        refusal(
            self.display,
            self.summary,
            self.has_writer,
            self.output_is_stdout,
            rule_entries(self.rules).len(),
        )
    }

    /// The channels that are asked for.
    pub open spec fn channels(&self) -> Channels {
        Channels {
            display: self.display,
            summary: self.summary,
            output_is_stdout: self.output_is_stdout,
            has_writer: self.has_writer,
        }
    }

    /// The filter of this scan in `mode`.
    pub open spec fn filter(&self, mode: AnalysisMode) -> TargetFilter {
        TargetFilter { patterns: self.path_filters, mode }
    }

    /// How this scan proceeds in `mode`: a configuration that is not valid is refused; a
    /// directory is scanned target by target; a single input is analysed if it passes the
    /// filter and skipped if it does not.
    pub open spec fn planned(&self, mode: AnalysisMode) -> Result<ScanPlan, ConfigError> {
        match self.refused() {
            Some(error) => Err(error),
            None => Ok(
                if self.multi_input {
                    ScanPlan::Multi
                } else if self.filter(mode).accepts(self.input@) {
                    ScanPlan::Single
                } else {
                    ScanPlan::Skip
                },
            ),
        }
    }

    /// A configuration is valid if at most one of the two console channels is asked for,
    /// some channel has a place to write to, and there is a rule to scan with.
    pub open spec fn valid(&self) -> bool {
        &&& !(self.display && self.summary)
        &&& self.has_writer || (!self.output_is_stdout && (self.display || self.summary))
        &&& rule_entries(self.rules).len() > 0
    }

    /// Accepts a valid configuration and refuses any other with the first reason that
    /// applies.
    pub fn check(&self) -> (checked: Result<(), ConfigError>)
        ensures
            checked is Ok <==> self.valid(),
            checked matches Err(error) ==> self.refused() == Some(error),
            self.display && self.summary ==> checked is Err,
            rule_entries(self.rules).len() == 0 ==> checked is Err,
    {
        match check_outputs(self.display, self.summary, self.has_writer, self.output_is_stdout) {
            Err(error) => Err(error),
            Ok(()) => if rule_count(&self.rules) == 0 {
                Err(ConfigError::NoRules)
            } else {
                Ok(())
            },
        }
    }

    /// Makes the configuration of a scan. `output` is the output argument as the user
    /// gave it: `-` for the standard output, any other text for a file. A configuration
    /// comes back exactly when it is valid.
    pub fn new(
        rules: RuleSet,
        input: String,
        multi_input: bool,
        path_filters: Option<RegexSet>,
        display: bool,
        display_context: usize,
        summary: bool,
        output: Option<&str>,
    ) -> (made: Result<Configuration, ConfigError>)
        ensures
            match made {
                Ok(config) => {
                    &&& config.valid()
                    &&& config.rules == rules
                    &&& config.input@ == input@
                    &&& config.multi_input == multi_input
                    &&& config.path_filters == path_filters
                    &&& config.display == display
                    &&& config.display_context == display_context
                    &&& config.summary == summary
                    &&& config.has_writer == output.is_some()
                    &&& config.output_is_stdout == (output matches Some(name) && names_stdout(
                        name@,
                    ))
                },
                Err(error) => Some(error) == refusal(
                    display,
                    summary,
                    output.is_some(),
                    output matches Some(name) && names_stdout(name@),
                    rule_entries(rules).len(),
                ),
            },
            made is Err <==> refusal(
                display,
                summary,
                output.is_some(),
                output matches Some(name) && names_stdout(name@),
                rule_entries(rules).len(),
            ) is Some,
    {
        let (has_writer, output_is_stdout) = match output {
            Some(name) => (true, output_is_stdout(name)),
            None => (false, false),
        };
        let config = Configuration {
            rules,
            input,
            multi_input,
            path_filters,
            display,
            display_context,
            summary,
            output_is_stdout,
            has_writer,
        };
        match config.check() {
            Ok(()) => Ok(config),
            Err(error) => Err(error),
        }
    }

    /// The filter that decides which paths this scan takes in `mode`.
    pub fn target_filter(&self, mode: AnalysisMode) -> (filter: TargetFilter)
        ensures
            filter == self.filter(mode),
    {
        TargetFilter::new(self.path_filters.clone(), mode)
    }

    /// Decides how the scan proceeds in `mode`. No scan starts on a configuration that is
    /// not valid: one without rules, or with both console channels, is refused here.
    pub fn plan(&self, mode: AnalysisMode) -> (plan: Result<ScanPlan, ConfigError>)
        ensures
            plan == self.planned(mode),
            plan is Ok <==> self.valid(),
            rule_entries(self.rules).len() == 0 ==> plan is Err,
            self.display && self.summary ==> plan is Err,
    {
        match self.check() {
            Err(error) => Err(error),
            Ok(()) => {
                if self.multi_input {
                    Ok(ScanPlan::Multi)
                } else {
                    let filter = self.target_filter(mode);
                    if filter.matches(self.input.as_str()) {
                        Ok(ScanPlan::Single)
                    } else {
                        Ok(ScanPlan::Skip)
                    }
                }
            },
        }
    }

    /// The output channels of this scan. A configuration that is not valid has none.
    pub fn reporter(&self) -> (made: Result<Reporter, ConfigError>)
        ensures
            made is Ok <==> self.valid(),
            made matches Ok(reporter) ==> {
                &&& reporter.rules@ == rule_entries(self.rules)
                &&& reporter.channels() == self.channels()
                &&& reporter.display_context == self.display_context
            },
            made matches Err(error) ==> self.refused() == Some(error),
    {
        match self.check() {
            Ok(()) => Ok(
                Reporter {
                    rules: RuleTable::from_rules(&self.rules),
                    display: self.display,
                    display_context: self.display_context,
                    summary: self.summary,
                    output_is_stdout: self.output_is_stdout,
                    has_writer: self.has_writer,
                },
            ),
            Err(error) => Err(error),
        }
    }
}

/// Whether an output argument means the standard output: it does if it is `-`.
pub fn output_is_stdout(output: &str) -> (found: bool)
    ensures
        found == names_stdout(output@),
{
    proof {
        reveal_strlit("-");
    }
    if output.unicode_len() == 1 {
        let first = output.get_char(0);
        assert(first == '-' ==> output@ =~= "-"@);
        first == '-'
    } else {
        false
    }
}

/// Compiles the path filters that the user gave. Without any there is no set, and the
/// mode's own rule decides; a set that comes back was compiled from exactly the patterns
/// given; a pattern that does not compile is a configuration error, which carries the
/// regex engine's account of what is wrong.
pub fn compile_filters(patterns: Option<Vec<String>>) -> (compiled: Result<
    Option<RegexSet>,
    ConfigError,
>)
    ensures
        match patterns {
            None => compiled == Ok::<Option<RegexSet>, ConfigError>(None),
            Some(list) => match compiled {
                Ok(filters) => {
                    &&& patterns_compile(list.deep_view())
                    &&& filters matches Some(set) && set_patterns(set) == list.deep_view()
                },
                Err(error) => !patterns_compile(list.deep_view()) && error is InvalidFilter,
            },
        },
{
    match patterns {
        None => Ok(None),
        Some(list) => match compile_set(&list) {
            Ok(set) => Ok(Some(set)),
            Err(error) => Err(ConfigError::InvalidFilter(error_message(&error))),
        },
    }
}

} // verus!
