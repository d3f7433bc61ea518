//! The regex matcher.

use super::{continued, resolve, LogTrace, MatchError, Matcher, Resolution, StepView};
use crate::config::RegexMatcherConfig;
use crate::text::{decimal, decimal_text, replace, replaced};
use vstd::prelude::*;
use vstd::string::StringExecFns;

verus! {

/// The error of the `regex` crate for a pattern that does not compile.
#[verifier::external_type_specification]
#[verifier::external_body]
pub struct ExPatternError(::regex::Error);

/// Whether `RegexBuilder::build` of the `regex` crate compiles `pattern`,
/// case-insensitively or not and with the crate's other settings as they are
/// by default.
pub uninterp spec fn pattern_compiles(pattern: Seq<char>, case_insensitive: bool) -> bool;

/// What `Regex::captures` of the `regex` crate finds for the compiled
/// `pattern` in `input`: nothing, or the text of each capture group of the
/// first match, group 0 being the whole match and a group that took no part
/// in the match being `None`.
pub uninterp spec fn pattern_captures(
    pattern: Seq<char>,
    case_insensitive: bool,
    input: Seq<char>,
) -> Option<Seq<Option<Seq<char>>>>;

/// Compiles `pattern` with `RegexBuilder::build` and searches `input` with
/// `Regex::captures`, both of the `regex` crate. The error is that of the
/// compilation, which fails for the patterns that do not compile and for no
/// others; the capture groups of the first match come as owned texts.
#[verifier::external_body]
pub(crate) fn search(pattern: &str, case_insensitive: bool, input: &str) -> (found: Result<
    Option<Vec<Option<String>>>,
    ::regex::Error,
>)
    ensures
        found is Ok <==> pattern_compiles(pattern@, case_insensitive),
        found matches Ok(groups) ==> groups.deep_view() == pattern_captures(
            pattern@,
            case_insensitive,
            input@,
        ),
{
    let compiled = ::regex::RegexBuilder::new(pattern).case_insensitive(case_insensitive).build()?;
    let captures = compiled.captures(input);
    Ok(captures.map(|c| c.iter().map(|g| g.map(|m| m.as_str().to_string())).collect()))
}

/// The kind of matcher that a regex matcher records in a trace.
pub open spec fn regex_kind() -> Seq<char> {
    seq!['r', 'e', 'g', 'e', 'x']
}

/// The placeholder for capture group `index`: `$` and the index in decimal.
pub open spec fn placeholder(index: nat) -> Seq<char> {
    seq!['$'] + decimal(index)
}

/// `template` after the placeholders of the first `n` groups have been
/// replaced, one group after the other from group 0 on, each by the text of
/// its group; the placeholder of a group without text stays.
pub open spec fn substituted_upto(
    template: Seq<char>,
    groups: Seq<Option<Seq<char>>>,
    n: int,
) -> Seq<char>
    recommends
        0 <= n <= groups.len(),
    decreases n,
{
    if n <= 0 {
        template
    } else {
        let before = substituted_upto(template, groups, n - 1);
        match groups[n - 1] {
            Some(text) => replaced(before, placeholder((n - 1) as nat), text),
            None => before,
        }
    }
}

/// `template` after the placeholders of all groups have been replaced.
pub open spec fn substituted(template: Seq<char>, groups: Seq<Option<Seq<char>>>) -> Seq<char> {
    substituted_upto(template, groups, groups.len() as int)
}

/// The whole match: the text of group 0, or nothing where there is none.
pub open spec fn whole_match(groups: Seq<Option<Seq<char>>>) -> Seq<char> {
    if groups.len() > 0 {
        match groups[0] {
            Some(text) => text,
            None => Seq::empty(),
        }
    } else {
        Seq::empty()
    }
}

/// What a regex matcher hands on: its rewrite template with the groups
/// substituted, or the whole match where it has no template.
pub open spec fn regex_candidate(
    cfg: RegexMatcherConfig,
    groups: Seq<Option<Seq<char>>>,
) -> Seq<char> {
    match cfg.match_with {
        Some(template) => substituted(template@, groups),
        None => whole_match(groups),
    }
}

/// The step a regex matcher records.
pub open spec fn regex_step(
    cfg: RegexMatcherConfig,
    input: Seq<char>,
    groups: Seq<Option<Seq<char>>>,
) -> StepView {
    StepView {
        input,
        matcher_type: regex_kind(),
        matcher_detail: cfg.regex@,
        output: regex_candidate(cfg, groups),
    }
}

/// What a regex matcher makes of `input` once its pattern has been found
/// there with the capture groups `groups`.
pub open spec fn resolve_captures(
    cfg: RegexMatcherConfig,
    input: Seq<char>,
    groups: Seq<Option<Seq<char>>>,
) -> Resolution
    decreases cfg, 0int,
{
    continued(
        regex_step(cfg, input, groups),
        match cfg.url {
            Some(url) => Some(substituted(url@, groups)),
            None => None,
        },
        match cfg.matcher {
            Some(child) => Some(resolve(*child, regex_candidate(cfg, groups))),
            None => None,
        },
    )
}

/// What a regex matcher makes of `input`.
pub open spec fn resolve_regex(cfg: RegexMatcherConfig, input: Seq<char>) -> Resolution
    decreases cfg, 1int,
{
    if !pattern_compiles(cfg.regex@, !cfg.case_sensitive) {
        Resolution::InvalidPattern { pattern: cfg.regex@ }
    } else {
        match pattern_captures(cfg.regex@, !cfg.case_sensitive, input) {
            Some(groups) => resolve_captures(cfg, input, groups),
            None => Resolution::NoMatch,
        }
    }
}

/// The redirect of a regex matcher with a url is the url with the capture
/// groups of the match substituted, whatever the rewrite template and the
/// child.
pub proof fn lemma_regex_url_uses_captures(
    cfg: RegexMatcherConfig,
    input: Seq<char>,
    groups: Seq<Option<Seq<char>>>,
)
    requires
        cfg.url is Some,
    ensures
        resolve_captures(cfg, input, groups) matches Resolution::Redirect { url, .. } && url
            == substituted(cfg.url->0@, groups),
{
}

/// Two regex matchers that differ in nothing but their rewrite template and
/// child, and have a url, redirect the same inputs, and to the same url.
pub proof fn lemma_regex_url_ignores_rewrite(
    a: RegexMatcherConfig,
    b: RegexMatcherConfig,
    input: Seq<char>,
)
    requires
        a.regex == b.regex,
        a.case_sensitive == b.case_sensitive,
        a.url == b.url,
        a.url is Some,
    ensures
        resolve_regex(a, input) matches Resolution::Redirect { url: from_a, .. } ==> (resolve_regex(
            b,
            input,
        ) matches Resolution::Redirect { url: from_b, .. } && from_a == from_b),
        !(resolve_regex(a, input) is Redirect) ==> resolve_regex(a, input) == resolve_regex(
            b,
            input,
        ),
{
}

/// A regex matcher without a url hands to its child its rewrite template
/// with the capture groups substituted, and the whole match where it has no
/// template.
pub proof fn lemma_regex_delegates_rewritten(
    cfg: RegexMatcherConfig,
    input: Seq<char>,
    groups: Seq<Option<Seq<char>>>,
)
    requires
        cfg.url is None,
        cfg.matcher is Some,
    ensures
        resolve_captures(cfg, input, groups) == continued(
            regex_step(cfg, input, groups),
            None,
            Some(
                resolve(
                    *cfg.matcher->0,
                    match cfg.match_with {
                        Some(template) => substituted(template@, groups),
                        None => whole_match(groups),
                    },
                ),
            ),
        ),
{
}

/// The placeholder for capture group `index`.
fn placeholder_text(index: usize) -> (text: String)
    ensures
        text@ == placeholder(index as nat),
        text@.len() > 0,
{
    proof {
        reveal_strlit("$");
        assert("$"@ =~= seq!['$']);
    }
    let mut text = "$".to_owned();
    text.append(decimal_text(index).as_str());
    text
}

/// Replaces in `template` the placeholder of each capture group that has a
/// text by that text, group after group from group 0 on.
pub fn substitute_template(template: &str, groups: &Vec<Option<String>>) -> (text: String)
    ensures
        text@ == substituted(template@, groups.deep_view()),
{
    let mut result = template.to_owned();
    let mut i: usize = 0;
    while i < groups.len()
        invariant
            i <= groups.len(),
            result@ == substituted_upto(template@, groups.deep_view(), i as int),
        decreases groups.len() - i,
    {
        assert(groups.deep_view()[i as int] == groups@[i as int].deep_view());
        if let Some(text) = &groups[i] {
            let placeholder = placeholder_text(i);
            result = replace(result.as_str(), placeholder.as_str(), text.as_str());
        }
        i = i + 1;
    }
    result
}

impl RegexMatcherConfig {
    /// Goes on from a match of this matcher's pattern in `input` that has the
    /// capture groups `groups`: redirects, or hands on to the child.
    pub fn apply_captures(&self, input: &str, groups: &Vec<Option<String>>) -> (r: Result<
        Option<(String, LogTrace)>,
        MatchError,
    >)
        ensures
            super::resolution_of(r) == resolve_captures(*self, input@, groups.deep_view()),
        decreases self, 0int,
    {
        proof {
            reveal_strlit("regex");
            assert("regex"@ =~= regex_kind());
        }
        let candidate = if let Some(template) = &self.match_with {
            substitute_template(template.as_str(), groups)
        } else if groups.len() > 0 {
            assert(groups.deep_view()[0] == groups@[0].deep_view());
            match &groups[0] {
                Some(text) => text.clone(),
                None => String::new(),
            }
        } else {
            String::new()
        };
        if let Some(url) = &self.url {
            let redirect = substitute_template(url.as_str(), groups);
            let trace = LogTrace::new(redirect.clone()).with_step(
                input.to_owned(),
                "regex".to_owned(),
                self.regex.clone(),
                candidate,
            );
            assert(trace@.steps =~= seq![regex_step(*self, input@, groups.deep_view())]);
            return Ok(Some((redirect, trace)));
        }
        if let Some(matcher) = &self.matcher {
            if let Some((url, trace)) = matcher.apply(candidate.as_str())? {
                let trace = trace.after_step(
                    input.to_owned(),
                    "regex".to_owned(),
                    self.regex.clone(),
                    candidate,
                );
                return Ok(Some((url, trace)));
            }
        }
        Ok(None)
    }
}

impl Matcher for RegexMatcherConfig {
    open spec fn resolution(&self, input: Seq<char>) -> Resolution {
        resolve_regex(*self, input)
    }

    fn apply(&self, input: &str) -> (r: Result<Option<(String, LogTrace)>, MatchError>)
        decreases self, 1int,
    {
        match search(self.regex.as_str(), !self.case_sensitive, input) {
            Err(cause) => Err(MatchError::InvalidPattern { pattern: self.regex.clone(), cause }),
            Ok(None) => Ok(None),
            Ok(Some(groups)) => self.apply_captures(input, &groups),
        }
    }
}

} // verus!
