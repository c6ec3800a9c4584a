use ghost_browser::input::{accepts_host, internal_page_request, is_blocked_scheme};
use ghost_browser::input::{
    is_internal_url, is_newtab_url, plan_navigation, plan_tab_target, resolve_input,
    resolve_input_with_engine,
};

#[test]
fn empty_input_is_refused() {
    assert_eq!(resolve_input("   "), Err("Empty input".to_string()));
    assert_eq!(resolve_input(""), Err("Empty input".to_string()));
}

#[test]
fn blocked_schemes_are_refused_in_any_case() {
    assert_eq!(
        resolve_input("  JavaScript:alert(1) "),
        Err("Blocked scheme: JavaScript:alert(1)".to_string())
    );
    assert_eq!(resolve_input("file:///etc/passwd"), Err("Blocked scheme: file:///etc/passwd".to_string()));
    assert_eq!(resolve_input("DATA:text/html,hi"), Err("Blocked scheme: DATA:text/html,hi".to_string()));
}

#[test]
fn http_urls_are_normalized() {
    assert_eq!(resolve_input("http://Example.com"), Ok("http://example.com/".to_string()));
    assert_eq!(resolve_input(" https://rust-lang.org/learn "), Ok("https://rust-lang.org/learn".to_string()));
}

#[test]
fn invalid_http_url_reports_the_parse_error() {
    assert_eq!(resolve_input("https://"), Err("Invalid URL: empty host".to_string()));
}

#[test]
fn bare_host_names_get_https() {
    assert_eq!(resolve_input("example.com"), Ok("https://example.com".to_string()));
    assert_eq!(resolve_input("localhost"), Ok("https://localhost".to_string()));
    assert_eq!(resolve_input("example.com/path?x=1"), Ok("https://example.com/path?x=1".to_string()));
}

#[test]
fn other_input_is_searched_with_the_default_engine() {
    assert_eq!(
        resolve_input("hello world"),
        Ok("https://www.google.com/search?q=hello+world".to_string())
    );
    assert_eq!(resolve_input("rust"), Ok("https://www.google.com/search?q=rust".to_string()));
}

#[test]
fn search_terms_are_form_encoded() {
    assert_eq!(
        resolve_input("a&b=c"),
        Ok("https://www.google.com/search?q=a%26b%3Dc".to_string())
    );
    assert_eq!(resolve_input("café"), Ok("https://www.google.com/search?q=caf%C3%A9".to_string()));
    assert_eq!(resolve_input("q=q"), Ok("https://www.google.com/search?q=q%3Dq".to_string()));
}

#[test]
fn engine_placeholder_is_replaced() {
    assert_eq!(
        resolve_input_with_engine("two words", "https://duckduckgo.com/?q=%s&ia=web"),
        Ok("https://duckduckgo.com/?q=two+words&ia=web".to_string())
    );
}

#[test]
fn engine_without_query_gets_one() {
    assert_eq!(
        resolve_input_with_engine("two words", "https://search.example/find"),
        Ok("https://search.example/find?q=two+words".to_string())
    );
    assert_eq!(
        resolve_input_with_engine("two words", "https://search.example/find?lang=en"),
        Ok("https://search.example/find?lang=en&q=two+words".to_string())
    );
    assert_eq!(
        resolve_input_with_engine("two words", "https://search.example/find?"),
        Ok("https://search.example/find?two+words".to_string())
    );
}

#[test]
fn internal_pages_are_recognized() {
    assert!(is_internal_url("newtab.html"));
    assert!(is_internal_url("tauri://localhost/history.html"));
    assert!(is_internal_url("bookmarks.html"));
    assert!(is_newtab_url("settings.html#theme"));
    assert!(!is_internal_url("https://example.com/"));
    assert!(!is_internal_url(""));
}

#[test]
fn new_tab_targets() {
    let engine = "https://www.google.com/search?q=";
    assert_eq!(plan_tab_target(&None, engine), Ok("newtab.html".to_string()));
    assert_eq!(plan_tab_target(&Some("  ".to_string()), engine), Ok("newtab.html".to_string()));
    assert_eq!(plan_tab_target(&Some("History.HTML".to_string()), engine), Ok("history.html".to_string()));
    assert_eq!(
        plan_tab_target(&Some("tauri://localhost/bookmarks.html".to_string()), engine),
        Ok("bookmarks.html".to_string())
    );
    assert_eq!(plan_tab_target(&Some("settings.html".to_string()), engine), Ok("settings.html".to_string()));
    assert_eq!(
        plan_tab_target(&Some("example.org".to_string()), engine),
        Ok("https://example.org".to_string())
    );
    assert_eq!(
        plan_tab_target(&Some("file:///x".to_string()), engine),
        Err("Blocked scheme: file:///x".to_string())
    );
}

#[test]
fn navigation_targets() {
    assert_eq!(plan_navigation("example.org"), Ok("https://example.org".to_string()));
    assert_eq!(plan_navigation(""), Err("Empty input".to_string()));
}

#[test]
fn unparsable_search_address_is_refused_for_a_new_tab() {
    assert_eq!(
        plan_tab_target(&Some("x".to_string()), "notaurl"),
        Err("relative URL without a base".to_string())
    );
    assert_eq!(
        resolve_input_with_engine("x", "notaurl"),
        Ok("notaurl?q=x".to_string())
    );
}

#[test]
fn decisions_on_outside_results() {
    assert!(is_blocked_scheme("javascript:alert(1)"));
    assert!(is_blocked_scheme("file:///x"));
    assert!(is_blocked_scheme("data:x"));
    assert!(!is_blocked_scheme("JavaScript:x"));
    assert!(!is_blocked_scheme("https://a"));
    assert!(accepts_host(&Some("example.com".to_string())));
    assert!(accepts_host(&Some("localhost".to_string())));
    assert!(!accepts_host(&Some("intranet".to_string())));
    assert!(!accepts_host(&None));
    assert_eq!(internal_page_request("history.html"), Some("history.html".to_string()));
    assert_eq!(internal_page_request("tauri://localhost/settings.html"), Some("settings.html".to_string()));
    assert_eq!(internal_page_request("x/bookmarks.html"), Some("bookmarks.html".to_string()));
    assert_eq!(internal_page_request("newtab.html"), Some("newtab.html".to_string()));
    assert_eq!(internal_page_request("myhistory.html"), None);
    assert_eq!(internal_page_request("HISTORY.HTML"), None);
}
