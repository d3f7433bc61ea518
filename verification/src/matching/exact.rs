//! The exact matcher.

use super::{continued, resolve, LogTrace, MatchError, Matcher, Resolution, StepView};
use crate::config::ExactMatcherConfig;
use crate::text::{
    eq_ignore_ascii_case, eq_ignoring_ascii_case, replace, replaced, same_text, trim, trimmed,
};
use vstd::prelude::*;

verus! {

/// The kind of matcher that an exact matcher records in a trace.
pub open spec fn exact_kind() -> Seq<char> {
    seq!['e', 'x', 'a', 'c', 't']
}

/// The placeholder `$1`.
pub open spec fn first_placeholder() -> Seq<char> {
    seq!['$', '1']
}

/// What an exact matcher compares and hands on: the input, trimmed where the
/// matcher trims.
pub open spec fn exact_candidate(cfg: ExactMatcherConfig, input: Seq<char>) -> Seq<char> {
    if cfg.trim {
        trimmed(input)
    } else {
        input
    }
}

/// Whether an exact matcher matches `input`.
pub open spec fn exact_accepts(cfg: ExactMatcherConfig, input: Seq<char>) -> bool {
    if cfg.case_sensitive {
        exact_candidate(cfg, input) == cfg.exact@
    } else {
        eq_ignoring_ascii_case(exact_candidate(cfg, input), cfg.exact@)
    }
}

/// The step an exact matcher records.
pub open spec fn exact_step(cfg: ExactMatcherConfig, input: Seq<char>) -> StepView {
    StepView {
        input,
        matcher_type: exact_kind(),
        matcher_detail: cfg.exact@,
        output: exact_candidate(cfg, input),
    }
}

/// What an exact matcher makes of `input`.
pub open spec fn resolve_exact(cfg: ExactMatcherConfig, input: Seq<char>) -> Resolution
    decreases cfg, 0int,
{
    if exact_accepts(cfg, input) {
        continued(
            exact_step(cfg, input),
            match cfg.url {
                Some(url) => Some(replaced(url@, first_placeholder(), exact_candidate(cfg, input))),
                None => None,
            },
            match cfg.matcher {
                Some(child) => Some(resolve(*child, exact_candidate(cfg, input))),
                None => None,
            },
        )
    } else {
        Resolution::NoMatch
    }
}

/// An exact matcher that trims and is not case-sensitive matches exactly the
/// inputs that, trimmed, equal its target up to the case of ASCII letters;
/// where it has a url, those are the inputs that it redirects.
pub proof fn lemma_exact_ignores_ascii_case(cfg: ExactMatcherConfig, input: Seq<char>)
    requires
        cfg.trim,
        !cfg.case_sensitive,
    ensures
        exact_accepts(cfg, input) <==> eq_ignoring_ascii_case(trimmed(input), cfg.exact@),
        cfg.url is Some ==> (resolve_exact(cfg, input) is Redirect <==> eq_ignoring_ascii_case(
            trimmed(input),
            cfg.exact@,
        )),
{
}

impl Matcher for ExactMatcherConfig {
    open spec fn resolution(&self, input: Seq<char>) -> Resolution {
        resolve_exact(*self, input)
    }

    fn apply(&self, input: &str) -> (r: Result<Option<(String, LogTrace)>, MatchError>)
        decreases self, 0int,
    {
        let candidate = if self.trim {
            trim(input)
        } else {
            input
        };
        let matches = if self.case_sensitive {
            same_text(candidate, self.exact.as_str())
        } else {
            eq_ignore_ascii_case(candidate, self.exact.as_str())
        };
        if matches {
            proof {
                reveal_strlit("$1");
                reveal_strlit("exact");
                assert("$1"@ =~= first_placeholder());
                assert("exact"@ =~= exact_kind());
            }
            if let Some(url) = &self.url {
                let redirect = replace(url.as_str(), "$1", candidate);
                let trace = LogTrace::new(redirect.clone()).with_step(
                    input.to_owned(),
                    "exact".to_owned(),
                    self.exact.clone(),
                    candidate.to_owned(),
                );
                assert(trace@.steps =~= seq![exact_step(*self, input@)]);
                return Ok(Some((redirect, trace)));
            }
            if let Some(matcher) = &self.matcher {
                if let Some((url, trace)) = matcher.apply(candidate)? {
                    let trace = trace.after_step(
                        input.to_owned(),
                        "exact".to_owned(),
                        self.exact.clone(),
                        candidate.to_owned(),
                    );
                    return Ok(Some((url, trace)));
                }
            }
        }
        Ok(None)
    }
}

} // verus!
