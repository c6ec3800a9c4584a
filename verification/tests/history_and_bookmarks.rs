use ghost_browser::history::entry_matches;
use ghost_browser::model::{AppState, HistoryEntry};

fn state_with_tab(url: &str, title: &str) -> AppState {
    let mut s = AppState::default();
    let (id, num) = s.allocate_tab();
    s.open_tab(id, num, url.to_string());
    s.tabs[0].title = title.to_string();
    s
}

#[test]
fn visits_are_recorded_newest_first() {
    let mut s = AppState::default();
    s.record_history_visit("https://a.example", "A", 100);
    s.record_history_visit("https://b.example", "", 200);
    assert_eq!(s.history.len(), 2);
    assert_eq!(s.history[0].url, "https://b.example");
    assert_eq!(s.history[0].title, "https://b.example");
    assert_eq!(s.history[0].id, "200-2");
    assert_eq!(s.history[0].timestamp, 200);
    assert_eq!(s.history[1].id, "100-1");
    assert_eq!(s.history[1].title, "A");
}

#[test]
fn internal_and_empty_addresses_are_not_recorded() {
    let mut s = AppState::default();
    s.record_history_visit("", "x", 1);
    s.record_history_visit("newtab.html", "x", 1);
    s.record_history_visit("tauri://localhost/settings.html", "x", 1);
    assert!(s.history.is_empty());
}

#[test]
fn quick_repeat_visits_are_ignored() {
    let mut s = AppState::default();
    s.record_history_visit("https://a.example", "A", 100);
    s.record_history_visit("https://a.example", "A", 104);
    assert_eq!(s.history.len(), 1);
    s.record_history_visit("https://a.example", "A", 105);
    assert_eq!(s.history.len(), 2);
}

#[test]
fn history_is_capped() {
    let mut s = AppState::default();
    s.settings.max_history_items = 2;
    s.record_history_visit("https://a.example", "", 1);
    s.record_history_visit("https://b.example", "", 2);
    s.record_history_visit("https://c.example", "", 3);
    assert_eq!(s.history.len(), 2);
    assert_eq!(s.history[0].url, "https://c.example");
    assert_eq!(s.history[1].url, "https://b.example");
    s.settings.max_history_items = 0;
    s.record_history_visit("https://d.example", "", 4);
    assert!(s.history.is_empty());
}

#[test]
fn history_removal_search_and_clear() {
    let mut s = AppState::default();
    s.record_history_visit("https://rust-lang.org", "Rust Programming Language", 1);
    s.record_history_visit("https://example.com/RUSTY", "Example", 10);
    s.record_history_visit("https://other.example", "Other", 20);
    let found: Vec<String> = s.search_history("rUsT").iter().map(|h: &HistoryEntry| h.url.clone()).collect();
    assert_eq!(found, vec!["https://example.com/RUSTY", "https://rust-lang.org"]);
    let id = s.history[1].id.clone();
    s.remove_history_entry(&id);
    assert_eq!(s.history.len(), 2);
    assert!(s.history.iter().all(|h| h.id != id));
    s.remove_history_entry("no-such-id");
    assert_eq!(s.history.len(), 2);
    s.clear_history();
    assert!(s.history.is_empty());
}

#[test]
fn retitling_a_tab_retitles_its_first_history_entry() {
    let mut s = state_with_tab("https://a.example", "Tab 1");
    s.record_history_visit("https://a.example", "", 1);
    s.record_history_visit("https://b.example", "", 2);
    s.record_history_visit("https://a.example", "", 3);
    s.update_tab_title("tab-1", "Page A");
    assert_eq!(s.tabs[0].title, "Page A");
    assert_eq!(s.history[0].title, "Page A");
    assert_eq!(s.history[2].title, "https://a.example");
    s.update_tab_title("tab-9", "ignored");
    assert_eq!(s.tabs[0].title, "Page A");
}

#[test]
fn bookmarks_are_added_once_per_address() {
    let mut s = AppState::default();
    let b = s.add_bookmark("https://a.example".to_string(), "".to_string(), Some("work".to_string()), 42).unwrap();
    assert_eq!(b.id, "bm-42");
    assert_eq!(b.title, "https://a.example");
    assert_eq!(b.folder, Some("work".to_string()));
    assert_eq!(b.created_at, 42);
    let again = s.add_bookmark("https://a.example".to_string(), "Other".to_string(), None, 50).unwrap();
    assert_eq!(again.id, "bm-42");
    assert_eq!(s.bookmarks.len(), 1);
    assert!(s.is_bookmarked("https://a.example"));
    assert!(!s.is_bookmarked("https://b.example"));
}

#[test]
fn internal_and_empty_addresses_cannot_be_bookmarked() {
    let mut s = AppState::default();
    let msg = "Cannot bookmark empty or newtab URL".to_string();
    assert_eq!(s.add_bookmark("".to_string(), "t".to_string(), None, 1).map(|b| b.id), Err(msg.clone()));
    assert_eq!(s.add_bookmark("newtab.html".to_string(), "t".to_string(), None, 1).map(|b| b.id), Err(msg));
    assert!(s.bookmarks.is_empty());
}

#[test]
fn bookmarks_are_removed_by_id_or_address() {
    let mut s = AppState::default();
    s.add_bookmark("https://a.example".to_string(), "A".to_string(), None, 1).unwrap();
    s.add_bookmark("https://b.example".to_string(), "B".to_string(), None, 2).unwrap();
    s.remove_bookmark("bm-1");
    assert_eq!(s.bookmarks.len(), 1);
    s.remove_bookmark("https://b.example");
    assert!(s.bookmarks.is_empty());
}

#[test]
fn toggling_the_active_tab_bookmark() {
    let mut s = state_with_tab("https://a.example", "Page A");
    assert_eq!(s.toggle_bookmark_active_tab(7), Ok(true));
    assert_eq!(s.bookmarks.len(), 1);
    assert_eq!(s.bookmarks[0].title, "Page A");
    assert_eq!(s.bookmarks[0].id, "bm-7");
    assert_eq!(s.toggle_bookmark_active_tab(8), Ok(false));
    assert!(s.bookmarks.is_empty());
}

#[test]
fn toggling_needs_a_bookmarkable_active_tab() {
    let mut s = AppState::default();
    assert_eq!(s.toggle_bookmark_active_tab(1), Err("No active tab".to_string()));
    let mut t = state_with_tab("newtab.html", "New Tab");
    assert_eq!(t.toggle_bookmark_active_tab(1), Ok(false));
    assert!(t.bookmarks.is_empty());
}

#[test]
fn record_visit_reports_whether_it_recorded() {
    let mut s = AppState::default();
    assert!(s.visit_in_range("https://a.example", 10));
    assert!(s.record_history_visit("https://a.example", "", 10));
    assert!(!s.record_history_visit("https://a.example", "", 12));
    assert!(!s.record_history_visit("newtab.html", "", 12));
    assert!(!s.visit_in_range("https://a.example", 9));
    assert!(s.visit_in_range("https://b.example", 9));
    assert!(s.visit_in_range("history.html", 0));
}

#[test]
fn search_match_on_lowered_text() {
    assert!(entry_matches("https://rust-lang.org", "rust", "lang"));
    assert!(entry_matches("https://a", "the rust book", "rust"));
    assert!(!entry_matches("https://a", "Rust", "rust"));
}

#[test]
fn history_stays_newest_first() {
    let mut s = AppState::default();
    s.settings.max_history_items = 3;
    for (i, u) in ["https://a.example", "https://b.example", "https://c.example", "https://d.example"].iter().enumerate() {
        s.record_history_visit(u, "", 10 * (i as u64 + 1));
    }
    assert_eq!(s.history.len(), 3);
    let ts: Vec<u64> = s.history.iter().map(|h| h.timestamp).collect();
    assert_eq!(ts, vec![40, 30, 20]);
}
