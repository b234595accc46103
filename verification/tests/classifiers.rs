//! The intent classifiers: calculator, web shortcuts and system actions.

use nexus::actions::{check_special_query, check_web_search, try_calculate, urlencoding};
use nexus::model::ResultKind;

#[test]
fn test_calculate() {
    let result = try_calculate("2+2");
    assert!(result.is_some());
    assert!(result.unwrap().description.contains("4"));

    let result = try_calculate("sqrt(16)");
    assert!(result.is_some());

    let result = try_calculate("hello");
    assert!(result.is_none());
}

#[test]
fn test_calculate_details() {
    let result = try_calculate("2+2").unwrap();
    assert_eq!(result.name, "= 4");
    assert_eq!(result.description, "2+2 = 4");
    assert_eq!(result.path, "4");
    assert_eq!(result.result_type, ResultKind::Calc);

    let sqrt = try_calculate("sqrt(16)").unwrap();
    assert!(sqrt.description.contains("4"));

    let frac = try_calculate("1/4").unwrap();
    assert_eq!(frac.path, "0.25");

    // A negative zero prints as the plain integer zero.
    let neg_zero = try_calculate("-0").unwrap();
    assert_eq!(neg_zero.path, "0");

    assert!(try_calculate("").is_none());
    assert!(try_calculate("2 2").is_none());
    assert!(try_calculate("((").is_none());
}

#[test]
fn test_web_search() {
    let result = check_web_search("g rust programming");
    assert!(result.is_some());
    assert!(result.unwrap().path.contains("google.com"));

    let result = check_web_search("yt music");
    assert!(result.is_some());
}

#[test]
fn test_web_search_details() {
    let g = check_web_search("g rust programming").unwrap();
    assert!(g.path.contains("rust%20programming"));
    assert_eq!(g.name, "Search Google: rust programming");
    assert_eq!(g.result_type, ResultKind::Web);

    let yt = check_web_search("yt music").unwrap();
    assert!(yt.path.contains("youtube.com"));

    // Non-ASCII terms are escaped byte by byte in the shortcut URL.
    let accented = check_web_search("g café").unwrap();
    assert!(accented.path.ends_with("caf%C3%A9"));

    let gh = check_web_search("gh verus").unwrap();
    assert!(gh.path.contains("github.com/search?q=verus"));

    let wiki = check_web_search("wiki rust").unwrap();
    assert!(wiki.path.contains("en.wikipedia.org"));

    let url = check_web_search("https://example.com/x").unwrap();
    assert_eq!(url.name, "Open URL");
    assert_eq!(url.path, "https://example.com/x");

    assert!(check_web_search("g ").is_none());
    assert!(check_web_search("plain words").is_none());
}

#[test]
fn test_urlencoding() {
    assert_eq!(urlencoding("a b"), "a%20b");
    assert_eq!(urlencoding("x&y?z=w#v+u"), "x%26y%3Fz%3Dw%23v%2Bu");
    assert_eq!(urlencoding("safe-chars_.~AZaz09"), "safe-chars_.~AZaz09");
    // Every byte outside the safe set becomes an uppercase two-digit %XX:
    // one byte for ASCII, each UTF-8 byte for anything beyond.
    assert_eq!(urlencoding("a!b"), "a%21b");
    assert_eq!(urlencoding("é"), "%C3%A9");
    assert_eq!(urlencoding("日"), "%E6%97%A5");
    assert_eq!(urlencoding("😀"), "%F0%9F%98%80");
}

#[test]
fn test_special_queries() {
    let lock = check_special_query("lock").unwrap();
    assert_eq!(lock.name, "Lock Computer");
    assert_eq!(lock.result_type, ResultKind::Action);

    let shutdown = check_special_query("  ShutDown  ").unwrap();
    assert_eq!(shutdown.name, "Shutdown");
    assert_eq!(shutdown.path, "shutdown");

    let spaced = check_special_query("shut down").unwrap();
    assert_eq!(spaced.name, "Shutdown");

    let trash = check_special_query("empty recycle bin").unwrap();
    assert_eq!(trash.name, "Empty Recycle Bin");

    assert!(check_special_query("locksmith").is_none());
    assert!(check_special_query("").is_none());
}
