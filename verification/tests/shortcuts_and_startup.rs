use ghost_browser::shortcuts::{shortcut_for, Key, Page, Shortcut};
use ghost_browser::startup::{env_defaults, restore_request};

#[test]
fn tab_shortcuts() {
    assert_eq!(shortcut_for(true, false, false, Key::T), Some(Shortcut::NewTab));
    assert_eq!(shortcut_for(true, true, false, Key::T), Some(Shortcut::ReopenClosedTab));
    assert_eq!(shortcut_for(true, false, false, Key::W), Some(Shortcut::CloseTab));
    assert_eq!(shortcut_for(true, true, true, Key::F4), Some(Shortcut::CloseTab));
    assert_eq!(shortcut_for(true, false, false, Key::Tab), Some(Shortcut::NextTab));
    assert_eq!(shortcut_for(true, false, false, Key::PageDown), Some(Shortcut::NextTab));
    assert_eq!(shortcut_for(true, true, false, Key::Tab), Some(Shortcut::PrevTab));
    assert_eq!(shortcut_for(true, false, false, Key::IsoLeftTab), Some(Shortcut::PrevTab));
    assert_eq!(shortcut_for(true, false, false, Key::PageUp), Some(Shortcut::PrevTab));
}

#[test]
fn digit_shortcuts() {
    assert_eq!(shortcut_for(true, false, false, Key::Digit(1)), Some(Shortcut::SwitchToIndex(0)));
    assert_eq!(shortcut_for(true, false, false, Key::Digit(8)), Some(Shortcut::SwitchToIndex(7)));
    assert_eq!(shortcut_for(true, false, false, Key::Digit(9)), Some(Shortcut::SwitchToIndex(999)));
    assert_eq!(shortcut_for(true, true, false, Key::Digit(1)), None);
    assert_eq!(shortcut_for(true, false, false, Key::Digit(0)), None);
}

#[test]
fn page_and_toolbar_shortcuts() {
    assert_eq!(shortcut_for(true, false, false, Key::L), Some(Shortcut::FocusUrlbar));
    assert_eq!(shortcut_for(false, false, true, Key::D), Some(Shortcut::FocusUrlbar));
    assert_eq!(shortcut_for(false, false, false, Key::F6), Some(Shortcut::FocusUrlbar));
    assert_eq!(shortcut_for(true, false, false, Key::B), Some(Shortcut::ToggleToolbar));
    assert_eq!(shortcut_for(true, false, false, Key::R), Some(Shortcut::Reload));
    assert_eq!(shortcut_for(false, false, false, Key::F5), Some(Shortcut::Reload));
    assert_eq!(shortcut_for(false, false, true, Key::Left), Some(Shortcut::GoBack));
    assert_eq!(shortcut_for(false, false, true, Key::KpRight), Some(Shortcut::GoForward));
    assert_eq!(shortcut_for(true, true, false, Key::I), Some(Shortcut::ToggleDevtools));
    assert_eq!(shortcut_for(false, false, false, Key::F12), Some(Shortcut::ToggleDevtools));
    assert_eq!(shortcut_for(true, false, false, Key::H), Some(Shortcut::Open(Page::History)));
    assert_eq!(shortcut_for(true, true, false, Key::O), Some(Shortcut::Open(Page::Bookmarks)));
    assert_eq!(shortcut_for(true, false, false, Key::Comma), Some(Shortcut::Open(Page::Settings)));
}

#[test]
fn unhandled_keys() {
    assert_eq!(shortcut_for(false, false, false, Key::T), None);
    assert_eq!(shortcut_for(false, false, false, Key::Other), None);
    assert_eq!(shortcut_for(true, false, true, Key::B), None);
    assert_eq!(shortcut_for(true, false, false, Key::O), None);
}

#[test]
fn env_defaults_follow_flags() {
    let none: Vec<String> = vec![];
    let d = env_defaults(false, false, false, &none);
    assert!(d.sandbox_off && d.dmabuf_off && d.compositing_off);
    let args = vec!["browser".to_string(), "--enable-dmabuf".to_string()];
    let d = env_defaults(true, false, false, &args);
    assert!(!d.sandbox_off && !d.dmabuf_off && d.compositing_off);
    let args = vec!["--enable-compositing".to_string()];
    let d = env_defaults(false, true, false, &args);
    assert!(d.sandbox_off && !d.dmabuf_off && !d.compositing_off);
}

#[test]
fn session_restore_requests() {
    assert_eq!(restore_request("newtab.html"), None);
    assert_eq!(restore_request("https://a.example"), Some("https://a.example".to_string()));
}
