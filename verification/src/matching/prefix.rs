//! The prefix matcher.

use super::exact::first_placeholder;
use super::{continued, resolve, LogTrace, MatchError, Matcher, Resolution, StepView};
use crate::config::PrefixMatcherConfig;
use crate::text::{eq_ignore_ascii_case, eq_ignoring_ascii_case, replace, replaced, same_text};
use vstd::prelude::*;
use vstd::utf8::{decode_utf8, encode_utf8, is_char_boundary};

verus! {

/// The kind of matcher that a prefix matcher records in a trace.
pub open spec fn prefix_kind() -> Seq<char> {
    seq!['p', 'r', 'e', 'f', 'i', 'x']
}

/// The placeholder `$2`.
pub open spec fn second_placeholder() -> Seq<char> {
    seq!['$', '2']
}

/// A text in two parts.
pub struct Cut {
    pub head: Seq<char>,
    pub remainder: Seq<char>,
}

/// `input` cut after as many bytes of its UTF-8 encoding as the encoding of
/// `prefix` has: the leading slice and the remainder. There is no such cut
/// where `input` is shorter than that, or where it would fall inside a
/// character.
pub open spec fn prefix_split(prefix: Seq<char>, input: Seq<char>) -> Option<Cut> {
    let bytes = encode_utf8(input);
    let n = encode_utf8(prefix).len() as int;
    if n <= bytes.len() && is_char_boundary(bytes, n) {
        Some(
            Cut {
                head: decode_utf8(bytes.subrange(0, n)),
                remainder: decode_utf8(bytes.subrange(n, bytes.len() as int)),
            },
        )
    } else {
        None
    }
}

/// Whether a prefix matcher matches `input`: the leading slice of `input`
/// exists and equals the prefix.
pub open spec fn prefix_accepts(cfg: PrefixMatcherConfig, input: Seq<char>) -> bool {
    match prefix_split(cfg.prefix@, input) {
        Some(cut) => if cfg.case_sensitive {
            cut.head == cfg.prefix@
        } else {
            eq_ignoring_ascii_case(cut.head, cfg.prefix@)
        },
        None => false,
    }
}

/// The leading slice of an input that a prefix matcher matches.
pub open spec fn prefix_head(cfg: PrefixMatcherConfig, input: Seq<char>) -> Seq<char> {
    match prefix_split(cfg.prefix@, input) {
        Some(cut) => cut.head,
        None => Seq::empty(),
    }
}

/// The remainder of an input that a prefix matcher matches.
pub open spec fn prefix_remainder(cfg: PrefixMatcherConfig, input: Seq<char>) -> Seq<char> {
    match prefix_split(cfg.prefix@, input) {
        Some(cut) => cut.remainder,
        None => Seq::empty(),
    }
}

/// The step a prefix matcher records.
pub open spec fn prefix_step(cfg: PrefixMatcherConfig, input: Seq<char>) -> StepView {
    StepView {
        input,
        matcher_type: prefix_kind(),
        matcher_detail: cfg.prefix@,
        output: prefix_remainder(cfg, input),
    }
}

/// What a prefix matcher makes of `input`.
pub open spec fn resolve_prefix(cfg: PrefixMatcherConfig, input: Seq<char>) -> Resolution
    decreases cfg, 0int,
{
    if prefix_accepts(cfg, input) {
        continued(
            prefix_step(cfg, input),
            match cfg.url {
                Some(url) => Some(
                    replaced(
                        replaced(url@, first_placeholder(), prefix_head(cfg, input)),
                        second_placeholder(),
                        prefix_remainder(cfg, input),
                    ),
                ),
                None => None,
            },
            match cfg.matcher {
                Some(child) => Some(resolve(*child, prefix_remainder(cfg, input))),
                None => None,
            },
        )
    } else {
        Resolution::NoMatch
    }
}

/// A cut of `input` gives back `input`: the leading slice followed by the
/// remainder is `input`, and the remainder is `input` from the byte on at
/// which the cut was made.
pub proof fn lemma_prefix_split_parts(prefix: Seq<char>, input: Seq<char>)
    ensures
        prefix_split(prefix, input) matches Some(cut) ==> {
            &&& encode_utf8(prefix).len() <= encode_utf8(input).len()
            &&& cut.head + cut.remainder == input
            &&& encode_utf8(cut.head) == encode_utf8(input).subrange(
                0,
                encode_utf8(prefix).len() as int,
            )
            &&& encode_utf8(cut.remainder) == encode_utf8(input).subrange(
                encode_utf8(prefix).len() as int,
                encode_utf8(input).len() as int,
            )
        },
{
    if prefix_split(prefix, input) is None {
        return ;
    }
    let bytes = encode_utf8(input);
    let n = encode_utf8(prefix).len() as int;
    vstd::utf8::encode_utf8_valid_utf8(input);
    vstd::utf8::encode_utf8_decode_utf8(input);
    vstd::utf8::valid_utf8_split(bytes, n);
    vstd::utf8::decode_utf8_split(bytes, n);
    vstd::utf8::decode_utf8_encode_utf8(bytes.subrange(0, n));
    vstd::utf8::decode_utf8_encode_utf8(bytes.subrange(n, bytes.len() as int));
}

/// A prefix matcher does not match an input whose encoding is shorter than
/// that of its prefix.
pub proof fn lemma_prefix_rejects_shorter_input(cfg: PrefixMatcherConfig, input: Seq<char>)
    requires
        encode_utf8(input).len() < encode_utf8(cfg.prefix@).len(),
    ensures
        !prefix_accepts(cfg, input),
        resolve_prefix(cfg, input) == Resolution::NoMatch,
{
}

/// Where a prefix matcher matches, the remainder is the input without its
/// first bytes, as many as the prefix has; it is also the input without its
/// first characters, as many as the prefix has.
pub proof fn lemma_prefix_remainder(cfg: PrefixMatcherConfig, input: Seq<char>)
    requires
        prefix_accepts(cfg, input),
    ensures
        encode_utf8(cfg.prefix@).len() <= encode_utf8(input).len(),
        encode_utf8(prefix_remainder(cfg, input)) == encode_utf8(input).subrange(
            encode_utf8(cfg.prefix@).len() as int,
            encode_utf8(input).len() as int,
        ),
        prefix_head(cfg, input) + prefix_remainder(cfg, input) == input,
        cfg.prefix@.len() <= input.len(),
        prefix_head(cfg, input) == input.subrange(0, cfg.prefix@.len() as int),
        prefix_remainder(cfg, input) == input.subrange(
            cfg.prefix@.len() as int,
            input.len() as int,
        ),
{
    lemma_prefix_split_parts(cfg.prefix@, input);
    let head = prefix_head(cfg, input);
    let remainder = prefix_remainder(cfg, input);
    assert(head.len() == cfg.prefix@.len());
    assert((head + remainder).subrange(0, head.len() as int) =~= head);
    assert((head + remainder).subrange(head.len() as int, (head + remainder).len() as int)
        =~= remainder);
}

/// The encoding of two texts one after the other is the encoding of the
/// first followed by that of the second.
proof fn lemma_encode_concat(a: Seq<char>, b: Seq<char>)
    ensures
        encode_utf8(a + b) == encode_utf8(a) + encode_utf8(b),
    decreases a.len(),
{
    if a.len() == 0 {
        assert(a + b =~= b);
        assert(encode_utf8(a) + encode_utf8(b) =~= encode_utf8(b));
    } else {
        assert((a + b).drop_first() =~= a.drop_first() + b);
        lemma_encode_concat(a.drop_first(), b);
        assert(encode_utf8(a + b) =~= encode_utf8(a) + encode_utf8(b));
    }
}

/// Where one text follows another, the encoding of the first ends at a
/// character boundary of the encoding of both.
proof fn lemma_boundary_between(a: Seq<char>, b: Seq<char>)
    ensures
        is_char_boundary(encode_utf8(a + b), encode_utf8(a).len() as int),
    decreases a.len(),
{
    let bytes = encode_utf8(a + b);
    vstd::utf8::encode_utf8_valid_utf8(a + b);
    if a.len() > 0 {
        let first = vstd::utf8::encode_scalar(a[0] as u32);
        assert((a + b).drop_first() =~= a.drop_first() + b);
        vstd::utf8::encode_utf8_first_scalar(a + b);
        lemma_encode_concat(a, b);
        lemma_boundary_between(a.drop_first(), b);
        assert(vstd::utf8::pop_first_scalar(bytes) =~= encode_utf8(a.drop_first() + b));
        assert(first.len() >= 1);
        assert(encode_utf8(a).len() == first.len() + encode_utf8(a.drop_first()).len());
    }
}

/// Texts that are equal up to the case of their ASCII letters have
/// encodings of the same length.
proof fn lemma_folded_encoding_length(a: Seq<char>, b: Seq<char>)
    requires
        eq_ignoring_ascii_case(a, b),
    ensures
        encode_utf8(a).len() == encode_utf8(b).len(),
    decreases a.len(),
{
    if a.len() > 0 {
        assert(crate::text::ascii_folded(a[0]) == crate::text::ascii_folded(b[0]));
        assert(vstd::utf8::encode_scalar(a[0] as u32).len() == vstd::utf8::encode_scalar(
            b[0] as u32,
        ).len());
        assert forall|i: int| 0 <= i < a.drop_first().len() implies crate::text::ascii_folded(
            #[trigger] a.drop_first()[i],
        ) == crate::text::ascii_folded(b.drop_first()[i]) by {
            assert(a.drop_first()[i] == a[i + 1]);
        }
        lemma_folded_encoding_length(a.drop_first(), b.drop_first());
    }
}

/// A text that starts with `head` is cut after the encoding of `head` into
/// `head` and what follows it.
proof fn lemma_split_after(prefix: Seq<char>, head: Seq<char>, rest: Seq<char>)
    requires
        encode_utf8(prefix).len() == encode_utf8(head).len(),
    ensures
        prefix_split(prefix, head + rest) == Some(Cut { head, remainder: rest }),
{
    let bytes = encode_utf8(head + rest);
    let n = encode_utf8(head).len() as int;
    lemma_encode_concat(head, rest);
    lemma_boundary_between(head, rest);
    assert(bytes.subrange(0, n) =~= encode_utf8(head));
    assert(bytes.subrange(n, bytes.len() as int) =~= encode_utf8(rest));
    vstd::utf8::encode_utf8_decode_utf8(head);
    vstd::utf8::encode_utf8_decode_utf8(rest);
}

/// In characters: a prefix matcher matches the inputs that start with its
/// prefix, and where it is not case-sensitive, those whose first characters,
/// as many as the prefix has, equal the prefix up to the case of ASCII
/// letters.
pub proof fn lemma_prefix_accepts_by_characters(cfg: PrefixMatcherConfig, input: Seq<char>)
    ensures
        prefix_accepts(cfg, input) <==> {
            &&& cfg.prefix@.len() <= input.len()
            &&& if cfg.case_sensitive {
                input.subrange(0, cfg.prefix@.len() as int) == cfg.prefix@
            } else {
                eq_ignoring_ascii_case(input.subrange(0, cfg.prefix@.len() as int), cfg.prefix@)
            }
        },
{
    let k = cfg.prefix@.len() as int;
    if prefix_accepts(cfg, input) {
        lemma_prefix_remainder(cfg, input);
    }
    if k <= input.len() {
        let head = input.subrange(0, k);
        let rest = input.subrange(k, input.len() as int);
        assert(head + rest =~= input);
        if cfg.case_sensitive {
            if head == cfg.prefix@ {
                lemma_split_after(cfg.prefix@, head, rest);
            }
        } else {
            if eq_ignoring_ascii_case(head, cfg.prefix@) {
                lemma_folded_encoding_length(head, cfg.prefix@);
                lemma_split_after(cfg.prefix@, head, rest);
            }
        }
    }
}

impl Matcher for PrefixMatcherConfig {
    open spec fn resolution(&self, input: Seq<char>) -> Resolution {
        resolve_prefix(*self, input)
    }

    fn apply(&self, input: &str) -> (r: Result<Option<(String, LogTrace)>, MatchError>)
        decreases self, 0int,
    {
        let n = self.prefix.as_str().as_bytes().len();
        if input.as_bytes().len() < n {
            return Ok(None);
        }
        if !input.is_char_boundary(n) {
            return Ok(None);
        }
        let (candidate_prefix, remainder) = input.split_at(n);
        proof {
            vstd::utf8::encode_utf8_decode_utf8(candidate_prefix@);
            vstd::utf8::encode_utf8_decode_utf8(remainder@);
            assert(prefix_split(self.prefix@, input@) == Some(
                Cut { head: candidate_prefix@, remainder: remainder@ },
            ));
        }
        let matches = if self.case_sensitive {
            same_text(candidate_prefix, self.prefix.as_str())
        } else {
            eq_ignore_ascii_case(candidate_prefix, self.prefix.as_str())
        };
        if matches {
            proof {
                reveal_strlit("$1");
                reveal_strlit("$2");
                reveal_strlit("prefix");
                assert("$1"@ =~= first_placeholder());
                assert("$2"@ =~= second_placeholder());
                assert("prefix"@ =~= prefix_kind());
            }
            if let Some(url) = &self.url {
                let with_prefix = replace(url.as_str(), "$1", candidate_prefix);
                let redirect = replace(with_prefix.as_str(), "$2", remainder);
                let trace = LogTrace::new(redirect.clone()).with_step(
                    input.to_owned(),
                    "prefix".to_owned(),
                    self.prefix.clone(),
                    remainder.to_owned(),
                );
                assert(trace@.steps =~= seq![prefix_step(*self, input@)]);
                return Ok(Some((redirect, trace)));
            }
            if let Some(matcher) = &self.matcher {
                if let Some((url, trace)) = matcher.apply(remainder)? {
                    let trace = trace.after_step(
                        input.to_owned(),
                        "prefix".to_owned(),
                        self.prefix.clone(),
                        remainder.to_owned(),
                    );
                    return Ok(Some((url, trace)));
                }
            }
        }
        Ok(None)
    }
}

} // verus!
