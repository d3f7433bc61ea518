//! The list matcher: the first child that yields anything decides.

use super::{resolve, LogTrace, MatchError, Matcher, Resolution};
use crate::config::MatcherConfig;
use vstd::prelude::*;

verus! {

/// What the children of a list from index `from` on make of `input`: the
/// resolution of the first child that is not `NoMatch`.
pub open spec fn resolve_list(
    children: Vec<MatcherConfig>,
    from: int,
    input: Seq<char>,
) -> Resolution
    decreases children, children.len() - from,
{
    if 0 <= from < children.len() {
        match resolve(children[from], input) {
            Resolution::NoMatch => resolve_list(children, from + 1, input),
            decided => decided,
        }
    } else {
        Resolution::NoMatch
    }
}

/// The children before `k` not matching, the list from `from` on resolves as
/// the list from `k` on.
proof fn lemma_list_skips(children: Vec<MatcherConfig>, from: int, k: int, input: Seq<char>)
    requires
        0 <= from <= k <= children.len(),
        forall|j: int| from <= j < k ==> resolve(#[trigger] children[j], input) is NoMatch,
    ensures
        resolve_list(children, from, input) == resolve_list(children, k, input),
    decreases k - from,
{
    if from < k {
        lemma_list_skips(children, from + 1, k, input);
    }
}

/// A list resolves as its first child that does not resolve to `NoMatch`: a
/// later child is never chosen, whatever it would make of the input.
pub proof fn lemma_list_first_match(children: Vec<MatcherConfig>, k: int, input: Seq<char>)
    requires
        0 <= k < children.len(),
        forall|j: int| 0 <= j < k ==> resolve(#[trigger] children[j], input) is NoMatch,
        !(resolve(children[k], input) is NoMatch),
    ensures
        resolve_list(children, 0, input) == resolve(children[k], input),
        resolve(MatcherConfig::List(children), input) == resolve(children[k], input),
{
    lemma_list_skips(children, 0, k, input);
}

/// A list none of whose children matches does not match.
pub proof fn lemma_list_no_match(children: Vec<MatcherConfig>, input: Seq<char>)
    requires
        forall|j: int|
            0 <= j < children.len() ==> resolve(#[trigger] children[j], input) is NoMatch,
    ensures
        resolve_list(children, 0, input) == Resolution::NoMatch,
        resolve(MatcherConfig::List(children), input) == Resolution::NoMatch,
{
    lemma_list_skips(children, 0, children.len() as int, input);
}

impl Matcher for Vec<MatcherConfig> {
    open spec fn resolution(&self, input: Seq<char>) -> Resolution {
        resolve_list(*self, 0, input)
    }

    fn apply(&self, input: &str) -> (r: Result<Option<(String, LogTrace)>, MatchError>)
        decreases self, 0int,
    {
        let mut i: usize = 0;
        while i < self.len()
            invariant
                i <= self.len(),
                resolve_list(*self, 0, input@) == resolve_list(*self, i as int, input@),
            decreases self.len() - i,
        {
            if let Some(result) = self[i].apply(input)? {
                return Ok(Some(result));
            }
            i = i + 1;
        }
        Ok(None)
    }
}

} // verus!
