use ghost_browser::text::{
    chars_of, contains, ends_with, join, join3, owned, push_decimal, replace_all, same_text,
    starts_with, string_of, trim,
};

#[test]
fn trim_matches_std_on_unicode_whitespace() {
    let spaces = [
        '\u{9}', '\u{a}', '\u{b}', '\u{c}', '\u{d}', ' ', '\u{85}', '\u{a0}', '\u{1680}',
        '\u{2000}', '\u{2001}', '\u{2002}', '\u{2003}', '\u{2004}', '\u{2005}', '\u{2006}',
        '\u{2007}', '\u{2008}', '\u{2009}', '\u{200a}', '\u{2028}', '\u{2029}', '\u{202f}',
        '\u{205f}', '\u{3000}',
    ];
    for c in spaces {
        let s = format!("{c}{c}mid{c}dle{c}");
        assert_eq!(trim(&s), s.trim(), "{:?}", c);
        assert_eq!(trim(&s), format!("mid{c}dle"));
    }
    for c in ['\u{200b}', '\u{180e}', 'x', '\u{feff}'] {
        let s = format!("{c}a{c}");
        assert_eq!(trim(&s), s.trim(), "{:?}", c);
    }
    assert_eq!(trim("   "), "");
    assert_eq!(trim(""), "");
}

#[test]
fn replace_all_matches_std() {
    let cases = [
        ("q=abc", "q=", ""),
        ("aaaa", "aa", "b"),
        ("aaa", "aa", "b"),
        ("x%sy%s", "%s", "Z"),
        ("none here", "%s", "Z"),
        ("", "q=", "x"),
        ("éé", "é", "e"),
    ];
    for (s, p, r) in cases {
        assert_eq!(replace_all(s, p, r), s.replace(p, r));
    }
}

#[test]
fn searching_text() {
    assert!(starts_with("https://x", "https://"));
    assert!(!starts_with("http", "https://"));
    assert!(ends_with("a/history.html", "/history.html"));
    assert!(!ends_with("html", "/history.html"));
    assert!(contains("abcabd", "abd"));
    assert!(contains("abc", ""));
    assert!(!contains("abc", "abcd"));
    assert!(same_text("tab-1", "tab-1"));
    assert!(!same_text("tab-1", "tab-10"));
}

#[test]
fn building_text() {
    assert_eq!(join("ab", "cd"), "abcd");
    assert_eq!(join3("Tab ", "x", " not found"), "Tab x not found");
    assert_eq!(owned("é"), "é");
    assert_eq!(string_of(&chars_of("naïve")), "naïve");
    let mut s = String::from("n=");
    push_decimal(&mut s, 0);
    push_decimal(&mut s, 1234567890123);
    assert_eq!(s, "n=01234567890123");
    let mut m = String::new();
    push_decimal(&mut m, u64::MAX);
    assert_eq!(m, u64::MAX.to_string());
}
