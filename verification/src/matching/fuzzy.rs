//! The fuzzy matcher.

use super::exact::first_placeholder;
use super::{continued, resolve, LogTrace, MatchError, Matcher, Resolution, StepView};
use crate::config::FuzzyMatcherConfig;
use crate::text::{replace, replaced};
use vstd::prelude::*;

verus! {

/// The kind of matcher that a fuzzy matcher records in a trace.
pub open spec fn fuzzy_kind() -> Seq<char> {
    seq!['f', 'u', 'z', 'z', 'y']
}

/// The least of three numbers.
pub open spec fn least(x: nat, y: nat, z: nat) -> nat {
    if x <= y && x <= z {
        x
    } else if y <= z {
        y
    } else {
        z
    }
}

/// The Levenshtein distance of `a` and `b`: the least number of characters to
/// insert, delete or substitute that turns `a` into `b`.
pub open spec fn edit_distance(a: Seq<char>, b: Seq<char>) -> nat
    decreases a.len() + b.len(),
{
    if a.len() == 0 {
        b.len()
    } else if b.len() == 0 {
        a.len()
    } else {
        let substitution: nat = if a.last() == b.last() {
            0
        } else {
            1
        };
        least(
            edit_distance(a.drop_last(), b) + 1,
            edit_distance(a, b.drop_last()) + 1,
            edit_distance(a.drop_last(), b.drop_last()) + substitution,
        )
    }
}

/// `strsim::levenshtein`: the least number of insertions, deletions and
/// substitutions of characters that change one string into the other.
#[verifier::external_body]
pub(crate) fn levenshtein(a: &str, b: &str) -> (distance: usize)
    ensures
        distance == edit_distance(a@, b@),
{
    strsim::levenshtein(a, b)
}

/// Whether a fuzzy matcher matches `input`: the distance of the input as it
/// came, untrimmed, from the target is within the tolerance.
pub open spec fn fuzzy_accepts(cfg: FuzzyMatcherConfig, input: Seq<char>) -> bool {
    edit_distance(input, cfg.fuzzy@) <= cfg.tolerance
}

/// The step a fuzzy matcher records.
pub open spec fn fuzzy_step(cfg: FuzzyMatcherConfig, input: Seq<char>) -> StepView {
    StepView { input, matcher_type: fuzzy_kind(), matcher_detail: cfg.fuzzy@, output: input }
}

/// What a fuzzy matcher makes of `input`.
pub open spec fn resolve_fuzzy(cfg: FuzzyMatcherConfig, input: Seq<char>) -> Resolution
    decreases cfg, 0int,
{
    if fuzzy_accepts(cfg, input) {
        continued(
            fuzzy_step(cfg, input),
            match cfg.url {
                Some(url) => Some(replaced(url@, first_placeholder(), input)),
                None => None,
            },
            match cfg.matcher {
                Some(child) => Some(resolve(*child, input)),
                None => None,
            },
        )
    } else {
        Resolution::NoMatch
    }
}

/// A text is at distance 0 from itself.
pub proof fn lemma_edit_distance_same(s: Seq<char>)
    ensures
        edit_distance(s, s) == 0,
    decreases s.len(),
{
    if s.len() > 0 {
        lemma_edit_distance_same(s.drop_last());
    }
}

/// Only equal texts are at distance 0.
pub proof fn lemma_edit_distance_zero(a: Seq<char>, b: Seq<char>)
    ensures
        edit_distance(a, b) == 0 <==> a == b,
    decreases a.len() + b.len(),
{
    if a == b {
        lemma_edit_distance_same(a);
    } else if a.len() > 0 && b.len() > 0 {
        lemma_edit_distance_zero(a.drop_last(), b.drop_last());
        if a.last() == b.last() {
            assert(a =~= a.drop_last().push(a.last()));
            assert(b =~= b.drop_last().push(b.last()));
        }
    } else {
        assert(a.len() == 0 && b.len() == 0 ==> a =~= b);
    }
}

/// A fuzzy matcher with tolerance 0 matches its target and nothing else.
pub proof fn lemma_fuzzy_without_tolerance(cfg: FuzzyMatcherConfig, input: Seq<char>)
    requires
        cfg.tolerance == 0,
    ensures
        fuzzy_accepts(cfg, input) <==> input == cfg.fuzzy@,
{
    lemma_edit_distance_zero(input, cfg.fuzzy@);
}

/// A fuzzy matcher matches its own target whatever the tolerance.
pub proof fn lemma_fuzzy_accepts_target(cfg: FuzzyMatcherConfig)
    ensures
        fuzzy_accepts(cfg, cfg.fuzzy@),
{
    lemma_edit_distance_same(cfg.fuzzy@);
}

/// A fuzzy matcher matches at a distance equal to its tolerance, and does not
/// match one further.
pub proof fn lemma_fuzzy_boundary(cfg: FuzzyMatcherConfig, input: Seq<char>)
    ensures
        edit_distance(input, cfg.fuzzy@) == cfg.tolerance ==> fuzzy_accepts(cfg, input),
        edit_distance(input, cfg.fuzzy@) == cfg.tolerance + 1 ==> !fuzzy_accepts(cfg, input),
{
}

impl Matcher for FuzzyMatcherConfig {
    open spec fn resolution(&self, input: Seq<char>) -> Resolution {
        resolve_fuzzy(*self, input)
    }

    fn apply(&self, input: &str) -> (r: Result<Option<(String, LogTrace)>, MatchError>)
        decreases self, 0int,
    {
        let distance = levenshtein(input, self.fuzzy.as_str());
        if distance <= self.tolerance as usize {
            proof {
                reveal_strlit("$1");
                reveal_strlit("fuzzy");
                assert("$1"@ =~= first_placeholder());
                assert("fuzzy"@ =~= fuzzy_kind());
            }
            if let Some(url) = &self.url {
                let redirect = replace(url.as_str(), "$1", input);
                let trace = LogTrace::new(redirect.clone()).with_step(
                    input.to_owned(),
                    "fuzzy".to_owned(),
                    self.fuzzy.clone(),
                    input.to_owned(),
                );
                assert(trace@.steps =~= seq![fuzzy_step(*self, input@)]);
                return Ok(Some((redirect, trace)));
            }
            if let Some(matcher) = &self.matcher {
                if let Some((url, trace)) = matcher.apply(input)? {
                    let trace = trace.after_step(
                        input.to_owned(),
                        "fuzzy".to_owned(),
                        self.fuzzy.clone(),
                        input.to_owned(),
                    );
                    return Ok(Some((url, trace)));
                }
            }
        }
        Ok(None)
    }
}

} // verus!
