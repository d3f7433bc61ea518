use shortcut_catapult::config::{ExactMatcherConfig, MatcherConfig};
use shortcut_catapult::matching::Matcher;

fn exact(target: &str, url: &str) -> ExactMatcherConfig {
    ExactMatcherConfig {
        exact: target.into(),
        case_sensitive: false,
        trim: true,
        url: Some(url.into()),
        matcher: None,
    }
}

#[test]
fn match_redirect() {
    let cfg = ExactMatcherConfig {
        exact: "Hello".into(),
        case_sensitive: false,
        trim: true,
        url: Some("https://example.com?q=$1".into()),
        matcher: None,
    };
    let result = cfg.apply("Hello").unwrap();
    assert_eq!(result.unwrap().0, "https://example.com?q=Hello");
}

#[test]
fn exact_redirect_carries_its_trace() {
    let cfg = exact("Hello", "https://example.com?q=$1");
    let (url, trace) = cfg.apply("Hello").unwrap().unwrap();
    assert_eq!(url, "https://example.com?q=Hello");
    assert_eq!(trace.render(), "Hello + exact(Hello) => https://example.com?q=Hello");
}

#[test]
fn exact_ignores_ascii_case_by_default() {
    let cfg = exact("Hello", "https://example.com?q=$1");
    let (url, _) = cfg.apply("hELLO").unwrap().unwrap();
    assert_eq!(url, "https://example.com?q=hELLO");
}

#[test]
fn exact_case_sensitive_rejects_other_case() {
    let mut cfg = exact("Hello", "https://example.com");
    cfg.case_sensitive = true;
    assert!(cfg.apply("hello").unwrap().is_none());
    assert!(cfg.apply("Hello").unwrap().is_some());
}

#[test]
fn exact_does_not_fold_non_ascii_letters() {
    let cfg = exact("\u{e9}t\u{e9}", "https://example.com");
    assert!(cfg.apply("\u{c9}T\u{c9}").unwrap().is_none());
    assert!(cfg.apply("\u{e9}T\u{e9}").unwrap().is_some());
}

#[test]
fn exact_trims_before_comparing() {
    let cfg = exact("Hello", "https://example.com?q=$1");
    let (url, trace) = cfg.apply("  Hello\t\n").unwrap().unwrap();
    assert_eq!(url, "https://example.com?q=Hello");
    assert_eq!(trace.render(), "  Hello\t\n + exact(Hello) => https://example.com?q=Hello");
}

#[test]
fn exact_trims_unicode_whitespace() {
    let cfg = exact("Hello", "https://example.com?q=$1");
    let (url, _) = cfg.apply("\u{2003}Hello\u{a0}\u{3000}").unwrap().unwrap();
    assert_eq!(url, "https://example.com?q=Hello");
}

#[test]
fn exact_without_trim_keeps_whitespace() {
    let mut cfg = exact("Hello", "https://example.com?q=$1");
    cfg.trim = false;
    assert!(cfg.apply(" Hello").unwrap().is_none());
    assert!(cfg.apply("Hello").unwrap().is_some());
}

#[test]
fn exact_replaces_every_placeholder() {
    let cfg = exact("ab", "$1/$1$2");
    let (url, _) = cfg.apply("ab").unwrap().unwrap();
    assert_eq!(url, "ab/ab$2");
}

#[test]
fn exact_mismatch_is_no_match() {
    let cfg = exact("Hello", "https://example.com?q=$1");
    assert!(cfg.apply("World").unwrap().is_none());
}

#[test]
fn exact_without_continuation_is_no_match() {
    let cfg = ExactMatcherConfig {
        exact: "Hello".into(),
        case_sensitive: false,
        trim: true,
        url: None,
        matcher: None,
    };
    assert!(cfg.apply("Hello").unwrap().is_none());
}

#[test]
fn exact_prefers_url_over_child() {
    let cfg = ExactMatcherConfig {
        exact: "Hello".into(),
        case_sensitive: false,
        trim: true,
        url: Some("https://own.example".into()),
        matcher: Some(Box::new(MatcherConfig::Exact(exact("Hello", "https://child.example")))),
    };
    let (url, trace) = cfg.apply("Hello").unwrap().unwrap();
    assert_eq!(url, "https://own.example");
    assert_eq!(trace.render(), "Hello + exact(Hello) => https://own.example");
}

#[test]
fn exact_delegates_the_trimmed_input() {
    let cfg = ExactMatcherConfig {
        exact: "Hello".into(),
        case_sensitive: false,
        trim: true,
        url: None,
        matcher: Some(Box::new(MatcherConfig::Exact(exact("hello", "https://child.example?q=$1")))),
    };
    let (url, trace) = cfg.apply(" Hello ").unwrap().unwrap();
    assert_eq!(url, "https://child.example?q=Hello");
    assert_eq!(
        trace.render(),
        " Hello  + exact(Hello) => Hello + exact(hello) => https://child.example?q=Hello"
    );
}

#[test]
fn exact_child_mismatch_is_no_match() {
    let cfg = ExactMatcherConfig {
        exact: "Hello".into(),
        case_sensitive: false,
        trim: true,
        url: None,
        matcher: Some(Box::new(MatcherConfig::Exact(exact("World", "https://child.example")))),
    };
    assert!(cfg.apply("Hello").unwrap().is_none());
}
