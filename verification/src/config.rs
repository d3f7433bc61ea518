//! The configuration model: one matcher node and its variants.

use vstd::prelude::*;

verus! {

/// Whether a matcher compares case-sensitively when the configuration does
/// not say.
pub fn default_case_sensitive() -> (r: bool)
    ensures
        r == false,
{
    false
}

/// Whether an exact matcher trims its input when the configuration does not
/// say.
pub fn default_trim() -> (r: bool)
    ensures
        r == true,
{
    true
}

/// The edit distance a fuzzy matcher tolerates when the configuration does
/// not say.
pub fn default_tolerance() -> (r: u32)
    ensures
        r == 3,
{
    3
}

/// A whole configuration: the root of the matcher tree.
#[derive(Debug, PartialEq, Eq)]
pub struct Config {
    pub matcher: MatcherConfig,
}

/// One node of the matcher tree.
#[derive(Debug, PartialEq, Eq)]
pub enum MatcherConfig {
    Exact(ExactMatcherConfig),
    Prefix(PrefixMatcherConfig),
    Fuzzy(FuzzyMatcherConfig),
    Regex(RegexMatcherConfig),
    List(Vec<MatcherConfig>),
}

/// Matches an input that equals `exact`.
///
/// A node continues with `url` where it is set, else with `matcher`; with
/// neither it yields no redirect.
#[derive(Debug, PartialEq, Eq)]
pub struct ExactMatcherConfig {
    pub exact: String,
    pub case_sensitive: bool,
    pub trim: bool,
    pub url: Option<String>,
    pub matcher: Option<Box<MatcherConfig>>,
}

/// Matches an input that starts with `prefix`.
#[derive(Debug, PartialEq, Eq)]
pub struct PrefixMatcherConfig {
    pub prefix: String,
    pub case_sensitive: bool,
    pub url: Option<String>,
    pub matcher: Option<Box<MatcherConfig>>,
}

/// Matches an input within `tolerance` edits of `fuzzy`.
#[derive(Debug, PartialEq, Eq)]
pub struct FuzzyMatcherConfig {
    pub fuzzy: String,
    pub tolerance: u32,
    pub url: Option<String>,
    pub matcher: Option<Box<MatcherConfig>>,
}

/// Matches an input in which the pattern `regex` is found.
#[derive(Debug, PartialEq, Eq)]
pub struct RegexMatcherConfig {
    pub regex: String,
    pub case_sensitive: bool,
    pub match_with: Option<String>,
    pub url: Option<String>,
    pub matcher: Option<Box<MatcherConfig>>,
}

} // verus!
