//! What the HTTP daemon answers to a request, as plain data.

use crate::config::MatcherConfig;
use crate::matching::{resolve, resolution_of, LogTrace, MatchError, Matcher, Resolution};
use vstd::prelude::*;
use vstd::string::StrSliceExecFns;

verus! {

/// The answer to a request.
#[derive(Debug, PartialEq)]
pub enum Reply {
    /// A redirect to `location`.
    Found { location: String },
    /// Nothing in the configuration matches.
    NotFound,
    /// The resolution failed; `message` says why.
    InternalServerError { message: String },
}

/// `s` without the occurrences of `c` that it starts with.
pub open spec fn without_leading(s: Seq<char>, c: char) -> Seq<char>
    decreases s.len(),
{
    if s.len() > 0 && s[0] == c {
        without_leading(s.drop_first(), c)
    } else {
        s
    }
}

/// Whether `err` is the failure that `resolution` is, and `message` is `err`
/// in words.
pub open spec fn explains(err: MatchError, message: String, resolution: Resolution) -> bool {
    err.described_by(message) && resolution_of(Err(err)) == resolution
}

/// The answer that stands for a resolution: a redirect to its url, not found
/// for no match, and for a failure an internal error whose message is that
/// of an error for the pattern that failed.
pub open spec fn answers(reply: Reply, resolution: Resolution) -> bool {
    match resolution {
        Resolution::Redirect { url, .. } => reply matches Reply::Found { location } && location@
            == url,
        Resolution::NoMatch => reply == Reply::NotFound,
        Resolution::InvalidPattern { .. } => reply matches Reply::InternalServerError { message }
            && exists|err: MatchError| explains(err, message, resolution),
    }
}

/// The input that a request path stands for: the path without its leading
/// slashes.
pub fn request_input(path: &str) -> (input: &str)
    ensures
        input@ == without_leading(path@, '/'),
{
    let n = path.unicode_len();
    let mut i: usize = 0;
    assert(path@.subrange(0, n as int) =~= path@);
    while i < n && path.get_char(i) == '/'
        invariant
            i <= n,
            n == path@.len(),
            without_leading(path@, '/') == without_leading(path@.subrange(i as int, n as int), '/'),
        decreases n - i,
    {
        assert(path@.subrange(i as int, n as int).drop_first() =~= path@.subrange(
            i as int + 1,
            n as int,
        ));
        i = i + 1;
    }
    path.substring_char(i, n)
}

impl Reply {
    /// The HTTP status code of this answer.
    pub fn status(&self) -> (code: u16)
        ensures
            code == match self {
                Reply::Found { .. } => 302u16,
                Reply::NotFound => 404u16,
                Reply::InternalServerError { .. } => 500u16,
            },
    {
        match self {
            Reply::Found { .. } => 302,
            Reply::NotFound => 404,
            Reply::InternalServerError { .. } => 500,
        }
    }
}

/// The answer for the outcome of a resolution. The message of an internal
/// error is that of the failure.
pub fn reply_to(outcome: Result<Option<(String, LogTrace)>, MatchError>) -> (reply: Reply)
    ensures
        answers(reply, resolution_of(outcome)),
        outcome matches Err(err) ==> reply matches Reply::InternalServerError { message }
            && err.described_by(message),
{
    match outcome {
        Ok(Some((url, _))) => Reply::Found { location: url },
        Ok(None) => Reply::NotFound,
        Err(err) => {
            let reply = Reply::InternalServerError { message: err.message() };
            assert(reply matches Reply::InternalServerError { message } && explains(
                err,
                message,
                resolution_of(outcome),
            ));
            reply
        },
    }
}

/// Answers the request for `path` from the configuration `matcher`.
pub fn answer(matcher: &MatcherConfig, path: &str) -> (reply: Reply)
    ensures
        answers(reply, resolve(*matcher, without_leading(path@, '/'))),
{
    reply_to(matcher.apply(request_input(path)))
}

} // verus!
