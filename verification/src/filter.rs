//! The target filter: whether a path qualifies for scanning.

use regex::RegexSet;
use vstd::prelude::*;
use vstd::string::*;

verus! {

/// `regex::RegexSet`: a set of regular expressions that are searched for together.
#[verifier::external_type_specification]
#[verifier::external_body]
pub struct ExRegexSet(RegexSet);

/// `regex::Error`: why a regular expression could not be compiled.
#[verifier::external_type_specification]
#[verifier::external_body]
pub struct ExRegexError(regex::Error);

/// Whether a list of patterns compiles to a set: each pattern is a valid regular
/// expression, and the compiled set stays within the size that the regex engine allows.
pub uninterp spec fn patterns_compile(patterns: Seq<Seq<char>>) -> bool;

/// The patterns that a set was compiled from, in their order.
pub uninterp spec fn set_patterns(set: RegexSet) -> Seq<Seq<char>>;

/// Whether at least one pattern of the set matches somewhere in `text`.
pub uninterp spec fn set_matches(set: RegexSet, text: Seq<char>) -> bool;

/// The extension of the file that a path names, if it has one, as
/// `std::path::Path::extension` finds it.
pub uninterp spec fn path_extension(path: Seq<char>) -> Option<Seq<char>>;

/// The path with the extension of its file name replaced by (or, where it has none,
/// extended by) `extension`, as `std::path::Path::with_extension` makes it.
pub uninterp spec fn path_with_extension(path: Seq<char>, extension: Seq<char>) -> Seq<char>;

/// Calls `RegexSet::new` on the patterns. A set that comes back was compiled from exactly
/// these patterns.
#[verifier::external_body]
pub(crate) fn compile_set(patterns: &Vec<String>) -> (compiled: Result<RegexSet, regex::Error>)
    ensures
        compiled is Ok <==> patterns_compile(patterns.deep_view()),
        compiled matches Ok(set) ==> set_patterns(set) == patterns.deep_view(),
{
    RegexSet::new(patterns)
}

/// Calls `RegexSet::is_match`: true if and only if one of the patterns matches in `text`.
#[verifier::external_body]
pub(crate) fn set_is_match(set: &RegexSet, text: &str) -> (found: bool)
    ensures
        found == set_matches(*set, text@),
{
    set.is_match(text)
}

/// `RegexSet::clone`, which shares the compiled patterns: the copy is the same value.
pub assume_specification[ <RegexSet as Clone>::clone ](set: &RegexSet) -> (copy: RegexSet)
    ensures
        copy == *set,
;

/// Writes a `regex::Error` out through its `Display`. Nothing is said of the wording.
#[verifier::external_body]
pub(crate) fn error_message(error: &regex::Error) -> (message: String) {
    error.to_string()
}

/// Calls `Path::extension` on the path.
#[verifier::external_body]
fn extension_of(path: &str) -> (extension: Option<String>)
    ensures
        extension.deep_view() == path_extension(path@),
{
    std::path::Path::new(path).extension().map(|found| found.to_string_lossy().into_owned())
}

/// Calls `Path::with_extension`, which panics on an extension that holds a path separator.
#[verifier::external_body]
fn with_extension(path: &str, extension: &str) -> (changed: String)
    requires
        !extension@.contains('/'),
        !extension@.contains('\\'),
    ensures
        changed@ == path_with_extension(path@, extension@),
{
    std::path::Path::new(path).with_extension(extension).to_string_lossy().into_owned()
}

/// What is analysed: a binary through its decompiled functions, or C or C++ source text.
#[derive(Clone, Copy, Debug, PartialEq, Eq, Structural)]
pub enum AnalysisMode {
    Binary,
    C,
    Cxx,
}

/// Whether `path` ends in a dot followed by `extension`.
pub open spec fn has_extension(path: Seq<char>, extension: Seq<char>) -> bool {
    (seq!['.'] + extension).is_suffix_of(path)
}

/// The paths that a C scan takes where no pattern was given.
pub open spec fn is_c_source(path: Seq<char>) -> bool {
    has_extension(path, "c"@) || has_extension(path, "h"@)
}

/// The paths that a C++ scan takes where no pattern was given.
pub open spec fn is_cxx_source(path: Seq<char>) -> bool {
    ||| has_extension(path, "C"@)
    ||| has_extension(path, "cc"@)
    ||| has_extension(path, "cxx"@)
    ||| has_extension(path, "cpp"@)
    ||| has_extension(path, "H"@)
    ||| has_extension(path, "hh"@)
    ||| has_extension(path, "hxx"@)
    ||| has_extension(path, "hpp"@)
    ||| has_extension(path, "h"@)
}

/// The paths that a mode takes where no pattern was given: source files by their
/// extension, and every binary.
pub open spec fn default_accepts(mode: AnalysisMode, path: Seq<char>) -> bool {
    match mode {
        AnalysisMode::Binary => true,
        AnalysisMode::C => is_c_source(path),
        AnalysisMode::Cxx => is_cxx_source(path),
    }
}

/// The extension of a decompilation database.
pub open spec fn database_extension() -> Seq<char> {
    "i64"@
}

/// Whether a path names a decompilation database.
pub open spec fn is_database(path: Seq<char>) -> bool {
    path_extension(path) == Some(database_extension())
}

/// The database that would sit beside `path`: the same stem with the database extension.
pub open spec fn database_sibling(path: Seq<char>) -> Seq<char> {
    path_with_extension(path, database_extension())
}

/// Whether `path` ends in a dot followed by `extension`.
pub fn ends_with_extension(path: &str, extension: &str) -> (found: bool)
    ensures
        found == has_extension(path@, extension@),
{
    let length: usize = path.unicode_len();
    let wanted: usize = extension.unicode_len();
    let ghost suffix = seq!['.'] + extension@;
    if length <= wanted {
        return false;
    }
    let start: usize = length - wanted - 1;
    if path.get_char(start) != '.' {
        assert(path@.subrange(start as int, length as int)[0] != suffix[0]);
        return false;
    }
    let mut index: usize = 0;
    while index < wanted
        invariant
            index <= wanted,
            wanted == extension@.len(),
            length == path@.len(),
            start == length - wanted - 1,
            suffix == seq!['.'] + extension@,
            forall|i: int| 0 <= i < index ==> path@[start + 1 + i] == extension@[i],
        decreases wanted - index,
    {
        if path.get_char(start + 1 + index) != extension.get_char(index) {
            assert(path@.subrange(start as int, length as int)[index + 1] != suffix[index + 1]);
            return false;
        }
        index = index + 1;
    }
    assert(suffix =~= path@.subrange(start as int, length as int));
    true
}

/// Whether a mode takes `path` where no pattern was given.
pub fn default_filter(mode: AnalysisMode, path: &str) -> (accepted: bool)
    ensures
        accepted == default_accepts(mode, path@),
{
    match mode {
        AnalysisMode::Binary => true,
        AnalysisMode::C => ends_with_extension(path, "c") || ends_with_extension(path, "h"),
        AnalysisMode::Cxx => {
            ends_with_extension(path, "C") || ends_with_extension(path, "cc")
                || ends_with_extension(path, "cxx") || ends_with_extension(path, "cpp")
                || ends_with_extension(path, "H") || ends_with_extension(path, "hh")
                || ends_with_extension(path, "hxx") || ends_with_extension(path, "hpp")
                || ends_with_extension(path, "h")
        },
    }
}

/// Decides which paths are scanned.
#[derive(Clone, Debug)]
pub struct TargetFilter {
    /// The patterns that the caller gave, if any. They take the place of the mode's own
    /// rule.
    pub patterns: Option<RegexSet>,
    pub mode: AnalysisMode,
}

impl TargetFilter {
    /// The rule on the path alone: with patterns, at least one of them matches; without,
    /// the mode's own rule holds.
    pub open spec fn accepts(&self, path: Seq<char>) -> bool {
        match self.patterns {
            Some(set) => set_matches(set, path),
            None => default_accepts(self.mode, path),
        }
    }

    /// Whether `path` qualifies, where `sibling_present` says whether the database beside
    /// it exists. A binary that has its database beside it is left out, so that it is not
    /// analysed twice; a database is never left out on that account.
    pub open spec fn qualifies(&self, path: Seq<char>, sibling_present: bool) -> bool {
        self.accepts(path) && match self.mode {
            AnalysisMode::Binary => is_database(path) || !sibling_present,
            _ => true,
        }
    }

    /// Whether `path` qualifies among the files of `listing`.
    pub open spec fn qualifies_in(&self, path: Seq<char>, listing: Set<Seq<char>>) -> bool {
        self.qualifies(path, listing.contains(database_sibling(path)))
    }

    /// A filter for `mode` with the caller's patterns, if there are any.
    pub fn new(patterns: Option<RegexSet>, mode: AnalysisMode) -> (filter: TargetFilter)
        ensures
            filter.patterns == patterns,
            filter.mode == mode,
    {
        TargetFilter { patterns, mode }
    }

    /// The rule on the path alone, which is all that is asked of a single target.
    pub fn matches(&self, path: &str) -> (accepted: bool)
        ensures
            accepted == self.accepts(path@),
    {
        match &self.patterns {
            Some(set) => set_is_match(set, path),
            None => default_filter(self.mode, path),
        }
    }

    /// Whether `path` is scanned in a scan over a directory. `sibling_present` says whether
    /// the file named by [`TargetFilter::sibling`] exists; it is read for binaries only.
    pub fn is_candidate(&self, path: &str, sibling_present: bool) -> (accepted: bool)
        ensures
            accepted == self.qualifies(path@, sibling_present),
    {
        if !self.matches(path) {
            return false;
        }
        match self.mode {
            AnalysisMode::Binary => names_database(path) || !sibling_present,
            _ => true,
        }
    }

    /// The path of the database that would sit beside `path`.
    pub fn sibling(path: &str) -> (beside: String)
        ensures
            beside@ == database_sibling(path@),
    {
        proof {
            reveal_strlit("i64");
        }
        with_extension(path, "i64")
    }
}

/// Whether a path names a decompilation database.
pub fn names_database(path: &str) -> (found: bool)
    ensures
        found == is_database(path@),
{
    match extension_of(path) {
        Some(extension) => {
            let wanted = String::from_str("i64");
            extension == wanted
        },
        None => false,
    }
}

/// Asking twice whether a path qualifies gives the same answer as long as the files
/// listed stay the same.
pub proof fn lemma_candidate_stable(
    filter: TargetFilter,
    path: Seq<char>,
    first: Set<Seq<char>>,
    second: Set<Seq<char>>,
)
    requires
        first == second,
    ensures
        filter.qualifies_in(path, first) == filter.qualifies_in(path, second),
{
}

/// Under the default rule for binaries, a database always qualifies, and a file that is
/// no database does not qualify while its database is among the files listed.
pub proof fn lemma_sibling_rule(filter: TargetFilter, path: Seq<char>, listing: Set<Seq<char>>)
    requires
        filter.mode == AnalysisMode::Binary,
        filter.patterns is None,
    ensures
        is_database(path) ==> filter.qualifies_in(path, listing),
        !is_database(path) && listing.contains(database_sibling(path)) ==> !filter.qualifies_in(
            path,
            listing,
        ),
        !listing.contains(database_sibling(path)) ==> filter.qualifies_in(path, listing),
{
}

} // verus!
