use shortcut_catapult::config::{ExactMatcherConfig, MatcherConfig, RegexMatcherConfig};
use shortcut_catapult::daemon::{answer, reply_to, request_input, Reply};
use shortcut_catapult::matching::{LogTrace, Matcher};

fn exact_config() -> MatcherConfig {
    MatcherConfig::Exact(ExactMatcherConfig {
        exact: "Hello".into(),
        case_sensitive: false,
        trim: true,
        url: Some("https://example.com?q=$1".into()),
        matcher: None,
    })
}

fn broken_config() -> MatcherConfig {
    MatcherConfig::Regex(RegexMatcherConfig {
        regex: "(".into(),
        case_sensitive: false,
        match_with: None,
        url: Some("https://example.com".into()),
        matcher: None,
    })
}

#[test]
fn redirect_returns_302() {
    let reply = answer(&exact_config(), "/Hello");
    assert_eq!(reply.status(), 302);
    assert_eq!(reply, Reply::Found { location: "https://example.com?q=Hello".into() });
}

#[test]
fn not_found_returns_404() {
    let reply = answer(&exact_config(), "/World");
    assert_eq!(reply.status(), 404);
    assert_eq!(reply, Reply::NotFound);
}

#[test]
fn failure_returns_500_with_the_message() {
    let reply = answer(&broken_config(), "/Hello");
    assert_eq!(reply.status(), 500);
    let expected = broken_config().apply("Hello").unwrap_err().message();
    assert_eq!(reply, Reply::InternalServerError { message: expected });
}

#[test]
fn request_input_strips_leading_slashes_only() {
    assert_eq!(request_input("/Hello"), "Hello");
    assert_eq!(request_input("Hello"), "Hello");
    assert_eq!(request_input("///a/b/"), "a/b/");
    assert_eq!(request_input("/"), "");
    assert_eq!(request_input(""), "");
    assert_eq!(request_input(" /x"), " /x");
    assert_eq!(request_input("/\u{e9}/"), "\u{e9}/");
}

#[test]
fn answer_resolves_the_path_without_its_slashes() {
    let config = MatcherConfig::Exact(ExactMatcherConfig {
        exact: "a/b".into(),
        case_sensitive: true,
        trim: false,
        url: Some("[$1]".into()),
        matcher: None,
    });
    assert_eq!(answer(&config, "//a/b"), Reply::Found { location: "[a/b]".into() });
    assert_eq!(answer(&config, "a/b"), Reply::Found { location: "[a/b]".into() });
    assert_eq!(answer(&config, "/a/b/"), Reply::NotFound);
}

#[test]
fn reply_to_a_redirect_drops_the_trace() {
    let trace = LogTrace::new("url".to_string());
    assert_eq!(
        reply_to(Ok(Some(("url".to_string(), trace)))),
        Reply::Found { location: "url".into() }
    );
    assert_eq!(reply_to(Ok(None)), Reply::NotFound);
}
