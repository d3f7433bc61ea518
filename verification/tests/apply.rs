use shortcut_catapult::apply::{report, resolve_input, strip_line_ends, Outcome};
use shortcut_catapult::cli::ApplyArgs;
use shortcut_catapult::config::{ExactMatcherConfig, MatcherConfig, RegexMatcherConfig};
use shortcut_catapult::matching::{LogTrace, MatchError, Matcher};

fn exact(target: &str, url: &str) -> MatcherConfig {
    MatcherConfig::Exact(ExactMatcherConfig {
        exact: target.into(),
        case_sensitive: false,
        trim: true,
        url: Some(url.into()),
        matcher: None,
    })
}

fn exact_config() -> MatcherConfig {
    exact("Hello", "https://example.com?q=$1")
}

fn list_config() -> MatcherConfig {
    MatcherConfig::List(vec![
        exact("One", "https://one.example"),
        exact("Two", "https://two.example"),
    ])
}

fn broken_config() -> MatcherConfig {
    MatcherConfig::Regex(RegexMatcherConfig {
        regex: "(".into(),
        case_sensitive: false,
        match_with: None,
        url: Some("https://example.com".into()),
        matcher: None,
    })
}

#[test]
fn apply_command_line_match_outputs_redirect() {
    let args = ApplyArgs { url: Some("Hello".into()) };
    assert!(!args.reads_stdin());
    let outcome = resolve_input(&exact_config(), args.url.as_deref().unwrap());
    assert_eq!(
        outcome,
        Outcome::Redirect {
            url: "https://example.com?q=Hello".into(),
            trace: "Hello + exact(Hello) => https://example.com?q=Hello".into(),
        }
    );
    assert_eq!(outcome.exit_code(), 0);
}

#[test]
fn apply_stdin_dash_match_outputs_redirect() {
    let args = ApplyArgs { url: Some("-".into()) };
    assert!(args.reads_stdin());
    match resolve_input(&exact_config(), "Hello") {
        Outcome::Redirect { url, .. } => assert_eq!(url, "https://example.com?q=Hello"),
        other => panic!("expected a redirect, got {:?}", other),
    }
}

#[test]
fn apply_stdin_implicit_match_outputs_redirect() {
    let args = ApplyArgs { url: None };
    assert!(args.reads_stdin());
    match resolve_input(&exact_config(), "Hello") {
        Outcome::Redirect { url, .. } => assert_eq!(url, "https://example.com?q=Hello"),
        other => panic!("expected a redirect, got {:?}", other),
    }
}

#[test]
fn apply_no_match_exit_code_two() {
    let outcome = resolve_input(&exact_config(), "World");
    assert_eq!(outcome, Outcome::NoMatch);
    assert_eq!(outcome.exit_code(), 2);
}

#[test]
fn apply_list_picks_first_match() {
    match resolve_input(&list_config(), "Two") {
        Outcome::Redirect { url, .. } => assert_eq!(url, "https://two.example"),
        other => panic!("expected a redirect, got {:?}", other),
    }
}

#[test]
fn apply_failure_has_exit_code_three() {
    let outcome = resolve_input(&broken_config(), "Hello");
    assert_eq!(outcome.exit_code(), 3);
    match outcome {
        Outcome::Failed(MatchError::InvalidPattern { pattern, .. }) => assert_eq!(pattern, "("),
        other => panic!("expected a failure, got {:?}", other),
    }
}

#[test]
fn apply_strips_line_ends_after_the_input() {
    let config = MatcherConfig::Exact(ExactMatcherConfig {
        exact: "Hello".into(),
        case_sensitive: true,
        trim: false,
        url: Some("[$1]".into()),
        matcher: None,
    });
    match resolve_input(&config, "Hello\r\n") {
        Outcome::Redirect { url, trace } => {
            assert_eq!(url, "[Hello]");
            assert_eq!(trace, "Hello + exact(Hello) => [Hello]");
        }
        other => panic!("expected a redirect, got {:?}", other),
    }
    assert_eq!(resolve_input(&config, "Hello \n"), Outcome::NoMatch);
}

#[test]
fn strip_line_ends_removes_only_trailing_line_ends() {
    assert_eq!(strip_line_ends("Hello\n"), "Hello");
    assert_eq!(strip_line_ends("Hello\r\n"), "Hello");
    assert_eq!(strip_line_ends("Hello\n\r\n\n"), "Hello");
    assert_eq!(strip_line_ends("\nHel\nlo"), "\nHel\nlo");
    assert_eq!(strip_line_ends("Hello \n"), "Hello ");
    assert_eq!(strip_line_ends("Hello\t"), "Hello\t");
    assert_eq!(strip_line_ends("\n"), "");
    assert_eq!(strip_line_ends(""), "");
    assert_eq!(strip_line_ends("\u{e9}t\u{e9}\n"), "\u{e9}t\u{e9}");
}

#[test]
fn reads_stdin_only_for_dash_or_nothing() {
    assert!(ApplyArgs { url: None }.reads_stdin());
    assert!(ApplyArgs { url: Some("-".into()) }.reads_stdin());
    assert!(!ApplyArgs { url: Some("--".into()) }.reads_stdin());
    assert!(!ApplyArgs { url: Some("".into()) }.reads_stdin());
    assert!(!ApplyArgs { url: Some("Hello".into()) }.reads_stdin());
}

#[test]
fn report_renders_the_trace() {
    let trace = LogTrace::new("url".to_string()).with_step(
        "i".to_string(),
        "t".to_string(),
        "d".to_string(),
        "o".to_string(),
    );
    let outcome = report(Ok(Some(("url".to_string(), trace))));
    assert_eq!(outcome, Outcome::Redirect { url: "url".into(), trace: "i + t(d) => url".into() });
    assert_eq!(report(Ok(None)), Outcome::NoMatch);
}

#[test]
fn report_keeps_the_failure() {
    let err = broken_config().apply("x").unwrap_err();
    let expected = broken_config().apply("x").unwrap_err();
    assert_eq!(report(Err(err)), Outcome::Failed(expected));
}
