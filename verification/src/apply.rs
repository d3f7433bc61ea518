//! What applying the configuration to one input comes to, as plain data.

use crate::cli::ApplyArgs;
use crate::config::MatcherConfig;
use crate::matching::{rendered, resolve, resolution_of, LogTrace, MatchError, Matcher, Resolution};
use crate::text::same_text;
use vstd::prelude::*;
use vstd::string::StrSliceExecFns;

verus! {

/// How an application of the configuration ended.
#[derive(Debug, PartialEq)]
pub enum Outcome {
    /// The input resolves to `url`; `trace` is the rendered trace.
    Redirect { url: String, trace: String },
    /// Nothing in the configuration matches: there is nothing to print.
    NoMatch,
    /// The resolution failed.
    Failed(MatchError),
}

/// Whether `c` ends a line.
pub open spec fn is_line_end(c: char) -> bool {
    c == '\n' || c == '\r'
}

/// `s` without the line feeds and carriage returns that it ends with.
pub open spec fn without_line_ends(s: Seq<char>) -> Seq<char>
    decreases s.len(),
{
    if s.len() > 0 && is_line_end(s.last()) {
        without_line_ends(s.drop_last())
    } else {
        s
    }
}

/// The outcome that stands for a resolution.
pub open spec fn reports(outcome: Outcome, resolution: Resolution) -> bool {
    match resolution {
        Resolution::Redirect { url, trace } => outcome matches Outcome::Redirect {
            url: printed,
            trace: logged,
        } && printed@ == url && logged@ == rendered(trace),
        Resolution::NoMatch => outcome == Outcome::NoMatch,
        Resolution::InvalidPattern { pattern } => outcome matches Outcome::Failed(err)
            && resolution_of(Err(err)) == resolution,
    }
}

/// `input` without the line ends after it.
pub fn strip_line_ends(input: &str) -> (stripped: &str)
    ensures
        stripped@ == without_line_ends(input@),
{
    let mut n = input.unicode_len();
    assert(input@.subrange(0, n as int) =~= input@);
    while n > 0 && (input.get_char(n - 1) == '\n' || input.get_char(n - 1) == '\r')
        invariant
            n <= input@.len(),
            without_line_ends(input@) == without_line_ends(input@.subrange(0, n as int)),
        decreases n,
    {
        assert(input@.subrange(0, n as int).drop_last() =~= input@.subrange(0, n as int - 1));
        n = n - 1;
    }
    input.substring_char(0, n)
}

impl ApplyArgs {
    /// Whether the input is to be read from the standard input: no input was
    /// given, or `-`.
    pub fn reads_stdin(&self) -> (from_stdin: bool)
        ensures
            from_stdin == match self.url {
                Some(url) => url@ == seq!['-'],
                None => true,
            },
    {
        proof {
            reveal_strlit("-");
            assert("-"@ =~= seq!['-']);
        }
        match &self.url {
            Some(url) => same_text(url.as_str(), "-"),
            None => true,
        }
    }
}

impl Outcome {
    /// The exit code of the process for this outcome.
    pub fn exit_code(&self) -> (code: u8)
        ensures
            code == match self {
                Outcome::Redirect { .. } => 0u8,
                Outcome::NoMatch => 2u8,
                Outcome::Failed(_) => 3u8,
            },
    {
        match self {
            Outcome::Redirect { .. } => 0,
            Outcome::NoMatch => 2,
            Outcome::Failed(_) => 3,
        }
    }
}

/// The outcome for the result of a resolution.
pub fn report(result: Result<Option<(String, LogTrace)>, MatchError>) -> (outcome: Outcome)
    ensures
        reports(outcome, resolution_of(result)),
        result matches Err(err) ==> outcome == Outcome::Failed(err),
{
    match result {
        Ok(Some((url, trace))) => Outcome::Redirect { url, trace: trace.render() },
        Ok(None) => Outcome::NoMatch,
        Err(err) => Outcome::Failed(err),
    }
}

/// Applies the configuration `matcher` to the input as it was read, line
/// ends after it left out.
pub fn resolve_input(matcher: &MatcherConfig, input: &str) -> (outcome: Outcome)
    ensures
        reports(outcome, resolve(*matcher, without_line_ends(input@))),
{
    report(matcher.apply(strip_line_ends(input)))
}

} // verus!
