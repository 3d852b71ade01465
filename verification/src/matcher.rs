//! The pattern matcher: it evaluates a rule set against a text and says which checker of
//! which rule matched, and where.

use vstd::prelude::*;
use weggli_ruleset::matcher::{RuleMatcher, RuleMatcherError};
use weggli_ruleset::RuleSet;

use crate::common::{captured_in, MatchResult};
use crate::rules::{resolves, rule_entries};

verus! {

/// `weggli_ruleset::matcher::RuleMatcher`: a rule set together with the parsers for the two
/// grammars.
#[verifier::external_type_specification]
#[verifier::external_body]
pub struct ExRuleMatcher(RuleMatcher);

/// `weggli_ruleset::matcher::RuleMatcherError`: why a matcher could not be made or run.
#[verifier::external_type_specification]
#[verifier::external_body]
pub struct ExRuleMatcherError(RuleMatcherError);

/// Whether a matcher can be made for a rule set, which is to say whether the parsers for
/// the two grammars can be set up.
pub uninterp spec fn matcher_builds(rules: RuleSet) -> bool;

/// The rule set that a matcher was made with.
pub uninterp spec fn matcher_set(matcher: RuleMatcher) -> RuleSet;

/// The matches of a rule set in a text, in the order in which the matcher reports them:
/// rule by rule and checker by checker. `cxx` selects the C++ grammar, and the C grammar
/// is used without it. Nothing where the matcher fails on the text.
pub uninterp spec fn matches_of(rules: RuleSet, source: Seq<char>, cxx: bool) -> Option<
    Seq<MatchResult>,
>;

/// The view of what may be a list of matches.
pub open spec fn maybe_matches(found: Option<Vec<MatchResult>>) -> Option<Seq<MatchResult>> {
    match found {
        Some(matches) => Some(matches@),
        None => None,
    }
}

/// Calls `RuleMatcher::new`, which takes the rule set over as it is and sets up one parser
/// for each grammar. A matcher that comes back holds the rules it was given.
#[verifier::external_body]
pub(crate) fn new_matcher(rules: RuleSet) -> (made: Result<RuleMatcher, RuleMatcherError>)
    ensures
        made is Ok <==> matcher_builds(rules),
        made matches Ok(matcher) ==> matcher_set(matcher) == rules,
{
    RuleMatcher::new(rules)
}

/// Calls `RuleMatcher::matches_with` on `source` and hands each match out as a
/// [`MatchResult`], in the order reported; a failure of the matcher comes back as nothing.
/// The matcher keeps its rules. It numbers a match by the position of the rule in its rule
/// set and of the checker in that rule, and the ranges it captures are ranges of the syntax
/// tree of `source`.
#[verifier::external_body]
pub(crate) fn find_matches(matcher: &mut RuleMatcher, source: &str, cxx: bool) -> (found: Option<
    Vec<MatchResult>,
>)
    ensures
        matcher_set(*final(matcher)) == matcher_set(*old(matcher)),
        maybe_matches(found) == matches_of(matcher_set(*old(matcher)), source@, cxx),
        found matches Some(matches) ==> forall|i: int|
            0 <= i < matches@.len() ==> resolves(
                rule_entries(matcher_set(*old(matcher))),
                (#[trigger] matches@[i]).rule as int,
                matches@[i].checker as int,
            ) && captured_in(matches@[i].result, source@),
{
    let found = matcher.matches_with(source, cxx).ok()?;
    Some(
        found.into_iter().map(
            |m| MatchResult { rule: m.rule_id(), checker: m.checker_id(), result: m.into_result() },
        ).collect(),
    )
}

} // verus!
