//! The resolution engine: what a matcher tree makes of an input, and the trace
//! of the matchers that took part.

use crate::config::MatcherConfig;
use vstd::prelude::*;
use vstd::string::StringExecFns;

pub mod exact;
pub mod fuzzy;
pub mod list;
pub mod prefix;
pub mod regex;

verus! {

/// One layer's part in a resolution.
#[derive(Debug, Clone)]
pub struct TraceStep {
    input: String,
    matcher_type: String,
    matcher_detail: String,
    output: String,
}

/// The matchers that led to a redirect, outermost first, and the redirect.
#[derive(Debug, Clone)]
pub struct LogTrace {
    steps: Vec<TraceStep>,
    final_url: String,
}

/// What a `TraceStep` records: the input the layer received, the kind of
/// matcher, what distinguishes the matcher, and what it handed on.
pub struct StepView {
    pub input: Seq<char>,
    pub matcher_type: Seq<char>,
    pub matcher_detail: Seq<char>,
    pub output: Seq<char>,
}

/// What a `LogTrace` records.
pub struct TraceView {
    pub steps: Seq<StepView>,
    pub final_url: Seq<char>,
}

impl View for TraceStep {
    type V = StepView;

    closed spec fn view(&self) -> StepView {
        StepView {
            input: self.input@,
            matcher_type: self.matcher_type@,
            matcher_detail: self.matcher_detail@,
            output: self.output@,
        }
    }
}

impl View for LogTrace {
    type V = TraceView;

    closed spec fn view(&self) -> TraceView {
        TraceView { steps: self.steps@.map_values(|s: TraceStep| s@), final_url: self.final_url@ }
    }
}

/// The text " + " that stands before a matcher.
pub open spec fn plus_mark() -> Seq<char> {
    seq![' ', '+', ' ']
}

/// The text " => " that stands before an output.
pub open spec fn arrow_mark() -> Seq<char> {
    seq![' ', '=', '>', ' ']
}

/// The part of a rendering that step `i` of `steps` contributes: the input
/// for the first step only, then the matcher, then the output for every step
/// but the last.
pub open spec fn rendered_step(steps: Seq<StepView>, i: int) -> Seq<char>
    recommends
        0 <= i < steps.len(),
{
    let step = steps[i];
    let head = if i == 0 {
        step.input
    } else {
        Seq::<char>::empty()
    };
    let tail = if i < steps.len() - 1 {
        arrow_mark() + step.output
    } else {
        Seq::<char>::empty()
    };
    head + plus_mark() + step.matcher_type + seq!['('] + step.matcher_detail + seq![')'] + tail
}

/// The rendering of the first `n` steps of `steps`.
pub open spec fn rendered_steps(steps: Seq<StepView>, n: int) -> Seq<char>
    recommends
        0 <= n <= steps.len(),
    decreases n,
{
    if n <= 0 {
        Seq::<char>::empty()
    } else {
        rendered_steps(steps, n - 1) + rendered_step(steps, n - 1)
    }
}

/// The rendering of a trace: the redirect alone where there are no steps,
/// else the first input, each matcher with the output it handed on, and the
/// redirect in place of the last output.
pub open spec fn rendered(trace: TraceView) -> Seq<char> {
    if trace.steps.len() == 0 {
        trace.final_url
    } else {
        rendered_steps(trace.steps, trace.steps.len() as int) + arrow_mark() + trace.final_url
    }
}

/// Rendering depends on nothing but the steps in their order and the
/// redirect: traces that record the same render to the same line.
pub proof fn lemma_rendering_is_determined(a: LogTrace, b: LogTrace)
    requires
        a@.steps == b@.steps,
        a@.final_url == b@.final_url,
    ensures
        rendered(a@) == rendered(b@),
{
}

impl LogTrace {
    /// A trace without steps that ends in `final_url`.
    pub fn new(final_url: String) -> (trace: Self)
        ensures
            trace@ == (TraceView { steps: Seq::empty(), final_url: final_url@ }),
    {
        let trace = Self { steps: Vec::new(), final_url };
        assert(trace@.steps =~= Seq::empty());
        trace
    }

    /// This trace with one more step after those it has.
    pub fn with_step(
        self,
        input: String,
        matcher_type: String,
        matcher_detail: String,
        output: String,
    ) -> (trace: Self)
        ensures
            trace@ == (TraceView {
                steps: self@.steps.push(
                    StepView {
                        input: input@,
                        matcher_type: matcher_type@,
                        matcher_detail: matcher_detail@,
                        output: output@,
                    },
                ),
                final_url: self@.final_url,
            }),
    {
        let mut trace = self;
        trace.steps.push(TraceStep { input, matcher_type, matcher_detail, output });
        assert(trace@.steps =~= self@.steps.push(trace.steps@.last()@));
        trace
    }

    /// This trace with one more step before those it has.
    pub(crate) fn after_step(
        self,
        input: String,
        matcher_type: String,
        matcher_detail: String,
        output: String,
    ) -> (trace: Self)
        ensures
            trace@ == (TraceView {
                steps: seq![
                    StepView {
                        input: input@,
                        matcher_type: matcher_type@,
                        matcher_detail: matcher_detail@,
                        output: output@,
                    },
                ] + self@.steps,
                final_url: self@.final_url,
            }),
    {
        let mut trace = self;
        trace.steps.insert(0, TraceStep { input, matcher_type, matcher_detail, output });
        assert(trace@.steps =~= seq![trace.steps@[0]@] + self@.steps);
        trace
    }

    /// The trace as one line of text.
    pub fn render(&self) -> (line: String)
        ensures
            line@ == rendered(self@),
    {
        if self.steps.len() == 0 {
            return self.final_url.clone();
        }
        let mut line = String::new();
        let mut i: usize = 0;
        while i < self.steps.len()
            invariant
                i <= self.steps.len(),
                line@ == rendered_steps(self@.steps, i as int),
            decreases self.steps.len() - i,
        {
            let step = &self.steps[i];
            proof {
                reveal_strlit(" + ");
                reveal_strlit("(");
                reveal_strlit(")");
                reveal_strlit(" => ");
                assert(" + "@ =~= plus_mark());
                assert("("@ =~= seq!['(']);
                assert(")"@ =~= seq![')']);
                assert(" => "@ =~= arrow_mark());
                assert(self@.steps[i as int] == step@);
            }
            if i == 0 {
                line.append(step.input.as_str());
            }
            line.append(" + ");
            line.append(step.matcher_type.as_str());
            line.append("(");
            line.append(step.matcher_detail.as_str());
            line.append(")");
            if i < self.steps.len() - 1 {
                line.append(" => ");
                line.append(step.output.as_str());
            }
            assert(line@ =~= rendered_steps(self@.steps, i as int) + rendered_step(
                self@.steps,
                i as int,
            ));
            i = i + 1;
        }
        proof {
            reveal_strlit(" => ");
            assert(" => "@ =~= arrow_mark());
        }
        line.append(" => ");
        line.append(self.final_url.as_str());
        line
    }
}

/// What a matcher makes of an input.
pub enum Resolution {
    /// The matcher does not match, or matches and has nowhere to go on.
    NoMatch,
    /// The matcher redirects to `url`; `trace` holds the layers that led there.
    Redirect { url: Seq<char>, trace: TraceView },
    /// A regex matcher was reached whose pattern is no regular expression.
    InvalidPattern { pattern: Seq<char> },
}

/// Why a resolution failed.
#[derive(Debug, PartialEq)]
pub enum MatchError {
    /// The pattern of a regex matcher could not be compiled.
    InvalidPattern { pattern: String, cause: ::regex::Error },
}

impl MatchError {
    /// Whether `text` is this error in words: what the cause displays as.
    pub open spec fn described_by(&self, text: String) -> bool {
        match self {
            MatchError::InvalidPattern { cause, .. } => vstd::string::to_string_from_display_ensures::<
                ::regex::Error,
            >(cause, text),
        }
    }

    /// The error in words, as the pattern compiler gave them.
    pub fn message(&self) -> (text: String)
        ensures
            self.described_by(text),
    {
        match self {
            MatchError::InvalidPattern { cause, .. } => cause.to_string(),
        }
    }
}

/// What `Matcher::apply` returns.
pub open spec fn resolution_of(r: Result<Option<(String, LogTrace)>, MatchError>) -> Resolution {
    match r {
        Ok(None) => Resolution::NoMatch,
        Ok(Some((url, trace))) => Resolution::Redirect { url: url@, trace: trace@ },
        Err(MatchError::InvalidPattern { pattern, .. }) => Resolution::InvalidPattern {
            pattern: pattern@,
        },
    }
}

/// The resolution of a layer that has matched and recorded `step`: a
/// redirect to `redirect` where the layer has one; else what the child made
/// of what the layer handed on, with `step` before the child's steps; else no
/// match.
pub open spec fn continued(
    step: StepView,
    redirect: Option<Seq<char>>,
    below: Option<Resolution>,
) -> Resolution {
    match redirect {
        Some(url) => Resolution::Redirect {
            url,
            trace: TraceView { steps: seq![step], final_url: url },
        },
        None => match below {
            Some(Resolution::Redirect { url, trace }) => Resolution::Redirect {
                url,
                trace: TraceView { steps: seq![step] + trace.steps, final_url: trace.final_url },
            },
            Some(other) => other,
            None => Resolution::NoMatch,
        },
    }
}

/// What the tree under `node` makes of `input`.
pub open spec fn resolve(node: MatcherConfig, input: Seq<char>) -> Resolution
    decreases node, 2int,
{
    match node {
        MatcherConfig::Exact(cfg) => exact::resolve_exact(cfg, input),
        MatcherConfig::Prefix(cfg) => prefix::resolve_prefix(cfg, input),
        MatcherConfig::Fuzzy(cfg) => fuzzy::resolve_fuzzy(cfg, input),
        MatcherConfig::Regex(cfg) => regex::resolve_regex(cfg, input),
        MatcherConfig::List(children) => list::resolve_list(children, 0, input),
    }
}

/// Whether `trace` is the trace of a resolution of `input`: it has a step, its
/// first step received `input`, and each later step received what the step
/// before it handed on.
pub open spec fn chained_from(trace: TraceView, input: Seq<char>) -> bool {
    &&& trace.steps.len() > 0
    &&& trace.steps[0].input == input
    &&& forall|i: int|
        0 <= i < trace.steps.len() - 1 ==> (#[trigger] trace.steps[i]).output == trace.steps[i
            + 1].input
}

/// A layer that goes on from a chained trace of what it handed on leaves a
/// chained trace of what it received.
proof fn lemma_continued_is_chained(
    step: StepView,
    redirect: Option<Seq<char>>,
    below: Option<Resolution>,
)
    requires
        below matches Some(Resolution::Redirect { url, trace }) ==> trace.final_url == url
            && chained_from(trace, step.output),
    ensures
        continued(step, redirect, below) matches Resolution::Redirect { url, trace }
            ==> trace.final_url == url && chained_from(trace, step.input),
{
    if let Resolution::Redirect { url, trace } = continued(step, redirect, below) {
        if redirect is None {
            let inner = below->0->trace;
            assert(trace.steps =~= seq![step] + inner.steps);
            assert forall|i: int| 0 <= i < trace.steps.len() - 1 implies (
            #[trigger] trace.steps[i]).output == trace.steps[i + 1].input by {
                if i > 0 {
                    assert(trace.steps[i] == inner.steps[i - 1]);
                    assert(trace.steps[i + 1] == inner.steps[i]);
                }
            }
        }
    }
}

/// The trace of a redirect ends in the redirect's url, starts with the layer
/// that received the input, and goes on layer by layer, each receiving what
/// the one before it handed on.
pub proof fn lemma_trace_is_chained(node: MatcherConfig, input: Seq<char>)
    ensures
        resolve(node, input) matches Resolution::Redirect { url, trace } ==> trace.final_url
            == url && chained_from(trace, input),
    decreases node, 0int,
{
    match node {
        MatcherConfig::Exact(cfg) => {
            let handed_on = exact::exact_candidate(cfg, input);
            if let Some(child) = cfg.matcher {
                lemma_trace_is_chained(*child, handed_on);
            }
            lemma_continued_is_chained(
                exact::exact_step(cfg, input),
                match cfg.url {
                    Some(url) => Some(
                        crate::text::replaced(url@, exact::first_placeholder(), handed_on),
                    ),
                    None => None,
                },
                match cfg.matcher {
                    Some(child) => Some(resolve(*child, handed_on)),
                    None => None,
                },
            );
        },
        MatcherConfig::Prefix(cfg) => {
            let handed_on = prefix::prefix_remainder(cfg, input);
            if let Some(child) = cfg.matcher {
                lemma_trace_is_chained(*child, handed_on);
            }
            lemma_continued_is_chained(
                prefix::prefix_step(cfg, input),
                match cfg.url {
                    Some(url) => Some(
                        crate::text::replaced(
                            crate::text::replaced(
                                url@,
                                exact::first_placeholder(),
                                prefix::prefix_head(cfg, input),
                            ),
                            prefix::second_placeholder(),
                            handed_on,
                        ),
                    ),
                    None => None,
                },
                match cfg.matcher {
                    Some(child) => Some(resolve(*child, handed_on)),
                    None => None,
                },
            );
        },
        MatcherConfig::Fuzzy(cfg) => {
            if let Some(child) = cfg.matcher {
                lemma_trace_is_chained(*child, input);
            }
            lemma_continued_is_chained(
                fuzzy::fuzzy_step(cfg, input),
                match cfg.url {
                    Some(url) => Some(
                        crate::text::replaced(url@, exact::first_placeholder(), input),
                    ),
                    None => None,
                },
                match cfg.matcher {
                    Some(child) => Some(resolve(*child, input)),
                    None => None,
                },
            );
        },
        MatcherConfig::Regex(cfg) => {
            if let Some(groups) = regex::pattern_captures(cfg.regex@, !cfg.case_sensitive, input) {
                let handed_on = regex::regex_candidate(cfg, groups);
                assert(regex::resolve_regex(cfg, input) is Redirect ==> regex::resolve_regex(
                    cfg,
                    input,
                ) == regex::resolve_captures(cfg, input, groups));
                if let Some(child) = cfg.matcher {
                    lemma_trace_is_chained(*child, handed_on);
                }
                lemma_continued_is_chained(
                    regex::regex_step(cfg, input, groups),
                    match cfg.url {
                        Some(url) => Some(regex::substituted(url@, groups)),
                        None => None,
                    },
                    match cfg.matcher {
                        Some(child) => Some(resolve(*child, handed_on)),
                        None => None,
                    },
                );
            }
        },
        MatcherConfig::List(children) => {
            lemma_list_trace_is_chained(children, 0, input);
        },
    }
}

/// The traces of a list are those of its children.
proof fn lemma_list_trace_is_chained(children: Vec<MatcherConfig>, from: int, input: Seq<char>)
    requires
        0 <= from,
    ensures
        list::resolve_list(children, from, input) matches Resolution::Redirect { url, trace }
            ==> trace.final_url == url && chained_from(trace, input),
    decreases children, children.len() - from,
{
    if from < children.len() {
        lemma_trace_is_chained(children[from], input);
        lemma_list_trace_is_chained(children, from + 1, input);
    }
}

/// Something that resolves an input.
pub trait Matcher {
    /// What this matcher makes of `input`.
    spec fn resolution(&self, input: Seq<char>) -> Resolution;

    /// Applies this matcher to `input`: a redirect with its trace, or `None`
    /// where the matcher does not match.
    fn apply(&self, input: &str) -> (r: Result<Option<(String, LogTrace)>, MatchError>)
        ensures
            resolution_of(r) == self.resolution(input@),
    ;
}

impl Matcher for MatcherConfig {
    open spec fn resolution(&self, input: Seq<char>) -> Resolution {
        resolve(*self, input)
    }

    fn apply(&self, input: &str) -> (r: Result<Option<(String, LogTrace)>, MatchError>)
        decreases self, 2int,
    {
        match self {
            MatcherConfig::Exact(cfg) => cfg.apply(input),
            MatcherConfig::Prefix(cfg) => cfg.apply(input),
            MatcherConfig::Fuzzy(cfg) => cfg.apply(input),
            MatcherConfig::Regex(cfg) => cfg.apply(input),
            MatcherConfig::List(list) => list.apply(input),
        }
    }
}

impl Matcher for Box<MatcherConfig> {
    open spec fn resolution(&self, input: Seq<char>) -> Resolution {
        resolve(**self, input)
    }

    fn apply(&self, input: &str) -> (r: Result<Option<(String, LogTrace)>, MatchError>)
        decreases self, 3int,
    {
        (**self).apply(input)
    }
}

} // verus!
