use shortcut_catapult::config::{
    ExactMatcherConfig, FuzzyMatcherConfig, MatcherConfig, RegexMatcherConfig,
};
use shortcut_catapult::matching::{LogTrace, Matcher};

fn simple_config() -> MatcherConfig {
    MatcherConfig::Exact(ExactMatcherConfig {
        exact: "Hello".into(),
        case_sensitive: false,
        trim: true,
        url: Some("https://example.com?q=$1".into()),
        matcher: None,
    })
}

fn chained_config() -> MatcherConfig {
    MatcherConfig::Regex(RegexMatcherConfig {
        regex: "^animals/(.*)".into(),
        case_sensitive: false,
        match_with: Some("$1".into()),
        url: None,
        matcher: Some(Box::new(MatcherConfig::Fuzzy(FuzzyMatcherConfig {
            fuzzy: "dog".into(),
            tolerance: 2,
            url: Some("https://animals.com/$1".into()),
            matcher: None,
        }))),
    })
}

#[test]
fn simple_match_shows_log_trace() {
    let (url, trace) = simple_config().apply("Hello").unwrap().unwrap();
    assert_eq!(url, "https://example.com?q=Hello");
    assert_eq!(trace.render(), "Hello + exact(Hello) => https://example.com?q=Hello");
}

#[test]
fn chained_match_shows_complete_trace() {
    let (url, trace) = chained_config().apply("animals/dag").unwrap().unwrap();
    assert_eq!(url, "https://animals.com/dag");
    assert_eq!(
        trace.render(),
        "animals/dag + regex(^animals/(.*)) => dag + fuzzy(dog) => https://animals.com/dag"
    );
}

#[test]
fn no_match_shows_no_trace() {
    assert!(simple_config().apply("World").unwrap().is_none());
}

#[test]
fn trace_without_steps_renders_the_redirect_alone() {
    let trace = LogTrace::new("https://example.com".to_string());
    assert_eq!(trace.render(), "https://example.com");
}

#[test]
fn trace_with_one_step_leaves_out_its_output() {
    let trace = LogTrace::new("https://example.com".to_string()).with_step(
        "in".to_string(),
        "exact".to_string(),
        "detail".to_string(),
        "out".to_string(),
    );
    assert_eq!(trace.render(), "in + exact(detail) => https://example.com");
}

#[test]
fn trace_chains_outputs_into_later_steps() {
    let trace = LogTrace::new("url".to_string())
        .with_step("i0".to_string(), "t0".to_string(), "d0".to_string(), "o0".to_string())
        .with_step("i1".to_string(), "t1".to_string(), "d1".to_string(), "o1".to_string())
        .with_step("i2".to_string(), "t2".to_string(), "d2".to_string(), "o2".to_string());
    assert_eq!(trace.render(), "i0 + t0(d0) => o0 + t1(d1) => o1 + t2(d2) => url");
}

#[test]
fn rendering_twice_gives_the_same_line() {
    let (_, trace) = chained_config().apply("animals/dag").unwrap().unwrap();
    let first = trace.render();
    let second = trace.render();
    assert_eq!(first, second);
    let copy = trace.clone();
    assert_eq!(copy.render(), first);
}

#[test]
fn equal_traces_render_alike() {
    let build = || {
        LogTrace::new("url".to_string()).with_step(
            "i".to_string(),
            "t".to_string(),
            "d".to_string(),
            "o".to_string(),
        )
    };
    assert_eq!(build().render(), build().render());
}

#[test]
fn trace_renders_empty_texts_as_they_are() {
    let trace = LogTrace::new(String::new()).with_step(
        String::new(),
        String::new(),
        String::new(),
        String::new(),
    );
    assert_eq!(trace.render(), " + () => ");
}
