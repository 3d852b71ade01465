//! Why a scan is refused, and why a target cannot be analysed.

use vstd::prelude::*;
use vstd::string::*;

use crate::filter::AnalysisMode;

verus! {

/// Why a configuration is refused before any scanning starts.
#[derive(Clone, Debug, PartialEq, Eq)]
pub enum ConfigError {
    /// Both console channels were asked for; only one of them can have the console.
    ConflictingOutputs,
    /// No output channel was asked for.
    NoOutput,
    /// A path filter is no valid regular expression; the text says why.
    InvalidFilter(String),
    /// The rule set holds no rule.
    NoRules,
}

/// Why a target could not be analysed.
#[derive(Clone, Copy, Debug, PartialEq, Eq, Structural)]
pub enum AnalysisError {
    /// The target could not be opened or read.
    CannotOpen,
    /// The target's database has no decompiler, so none of its functions can be analysed.
    DecompilerUnavailable,
    /// No matcher could be made from the rules.
    InvalidRules,
    /// The matcher failed on the text of a source file.
    MatchFailed,
}

/// Why a scan of a single target failed.
#[derive(Clone, Debug, PartialEq, Eq)]
pub enum ScanError {
    Config(ConfigError),
    Analysis(AnalysisError),
}

impl ConfigError {
    /// The message that tells the user of the error. For a filter that does not compile
    /// it ends in the regex engine's own words.
    pub open spec fn message_text(self) -> Seq<char> {
        match self {
            ConfigError::ConflictingOutputs =>
                "the match display and the summary table cannot be used together"@,
            ConfigError::NoOutput => "no display or reporting options set"@,
            ConfigError::InvalidFilter(reason) => "invalid path filter(s): "@ + reason@,
            ConfigError::NoRules => "no viable rules available at the path specified"@,
        }
    }

    pub fn message(&self) -> (text: String)
        ensures
            text@ == self.message_text(),
    {
        match self {
            ConfigError::ConflictingOutputs => String::from_str(
                "the match display and the summary table cannot be used together",
            ),
            ConfigError::NoOutput => String::from_str("no display or reporting options set"),
            ConfigError::InvalidFilter(reason) => {
                let mut text = String::from_str("invalid path filter(s): ");
                text.append(reason.as_str());
                text
            },
            ConfigError::NoRules => String::from_str(
                "no viable rules available at the path specified",
            ),
        }
    }
}

impl AnalysisError {
    /// The message that names the error for a target analysed in `mode`.
    pub open spec fn message_text(self, mode: AnalysisMode) -> Seq<char> {
        match self {
            AnalysisError::CannotOpen => match mode {
                AnalysisMode::Binary => "cannot create IDB for scan target"@,
                _ => "cannot open file to scan"@,
            },
            AnalysisError::DecompilerUnavailable =>
                "cannot process IDB as decompiler is not available"@,
            AnalysisError::InvalidRules => "cannot construct rule matcher"@,
            AnalysisError::MatchFailed => "cannot perform rule matching"@,
        }
    }

    pub fn message(&self, mode: AnalysisMode) -> (text: String)
        ensures
            text@ == self.message_text(mode),
    {
        match self {
            AnalysisError::CannotOpen => match mode {
                AnalysisMode::Binary => String::from_str("cannot create IDB for scan target"),
                _ => String::from_str("cannot open file to scan"),
            },
            AnalysisError::DecompilerUnavailable => String::from_str(
                "cannot process IDB as decompiler is not available",
            ),
            AnalysisError::InvalidRules => String::from_str("cannot construct rule matcher"),
            AnalysisError::MatchFailed => String::from_str("cannot perform rule matching"),
        }
    }
}

impl ScanError {
    /// The message of the error that is held.
    pub open spec fn message_text(self, mode: AnalysisMode) -> Seq<char> {
        match self {
            ScanError::Config(error) => error.message_text(),
            ScanError::Analysis(error) => error.message_text(mode),
        }
    }

    pub fn message(&self, mode: AnalysisMode) -> (text: String)
        ensures
            text@ == self.message_text(mode),
    {
        match self {
            ScanError::Config(error) => error.message(),
            ScanError::Analysis(error) => error.message(mode),
        }
    }
}

} // verus!
