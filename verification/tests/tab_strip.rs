use ghost_browser::model::{AppState, TabInfo, TabStatePayload, UserSettings};
use ghost_browser::tabs::{missing_tab_message, tab_position, NavigateAction};

fn open(state: &mut AppState, target: &str) -> String {
    let (id, num) = state.allocate_tab();
    state.open_tab(id.clone(), num, target.to_string());
    id
}

fn ids(state: &AppState) -> Vec<String> {
    state.tabs.iter().map(|t| t.id.clone()).collect()
}

#[test]
fn default_state_and_settings() {
    let s = AppState::default();
    assert!(s.tabs.is_empty());
    assert_eq!(s.active_id, None);
    assert_eq!(s.next_tab_num, 0);
    assert!(s.toolbar_visible);
    let u = UserSettings::default();
    assert_eq!(u.search_engine, "https://www.google.com/search?q=");
    assert_eq!(u.homepage, "newtab.html");
    assert_eq!(u.theme, "dark");
    assert!(u.restore_session);
    assert_eq!(u.max_history_items, 10000);
}

#[test]
fn new_tabs_get_numbered_ids_and_titles() {
    let mut s = AppState::default();
    let a = open(&mut s, "newtab.html");
    let b = open(&mut s, "https://example.com");
    let c = open(&mut s, "history.html");
    assert_eq!(a, "tab-1");
    assert_eq!(b, "tab-2");
    assert_eq!(c, "tab-3");
    assert_eq!(s.tabs[0].title, "New Tab");
    assert_eq!(s.tabs[1].title, "Tab 2");
    assert_eq!(s.tabs[2].title, "History");
    assert_eq!(s.active_id, Some("tab-3".to_string()));
    assert_eq!(s.next_tab_num, 3);
    for _ in 0..9 {
        open(&mut s, "https://example.com");
    }
    assert_eq!(s.tabs[11].id, "tab-12");
    assert_eq!(s.tabs[11].title, "Tab 12");
}

#[test]
fn closing_the_active_tab_activates_its_neighbour() {
    let mut s = AppState::default();
    open(&mut s, "https://a.example");
    open(&mut s, "https://b.example");
    open(&mut s, "https://c.example");
    s.activate_tab("tab-2".to_string());
    assert_eq!(s.close_tab("tab-2"), Ok(Some("tab-3".to_string())));
    assert_eq!(ids(&s), vec!["tab-1", "tab-3"]);
    assert_eq!(s.active_id, Some("tab-3".to_string()));
    assert_eq!(s.close_tab("tab-3"), Ok(Some("tab-1".to_string())));
    assert_eq!(s.close_tab("tab-1"), Ok(None));
    assert_eq!(s.active_id, None);
    assert!(s.toolbar_visible);
    assert_eq!(s.closed_tabs_stack, vec!["https://b.example", "https://c.example", "https://a.example"]);
}

#[test]
fn closing_an_inactive_tab_keeps_the_active_one() {
    let mut s = AppState::default();
    open(&mut s, "https://a.example");
    open(&mut s, "https://b.example");
    s.toolbar_visible = false;
    assert_eq!(s.close_tab("tab-1"), Ok(None));
    assert_eq!(s.active_id, Some("tab-2".to_string()));
    assert!(!s.toolbar_visible);
}

#[test]
fn closing_an_unknown_tab_fails() {
    let mut s = AppState::default();
    open(&mut s, "newtab.html");
    assert_eq!(s.close_tab("tab-9"), Err("Tab not found".to_string()));
    assert_eq!(s.tabs.len(), 1);
}

#[test]
fn close_then_reopen_gives_back_the_address() {
    let mut s = AppState::default();
    open(&mut s, "https://a.example/page");
    open(&mut s, "newtab.html");
    s.close_tab("tab-2").unwrap();
    assert!(s.closed_tabs_stack.is_empty());
    s.close_tab("tab-1").unwrap();
    assert_eq!(s.pop_closed_tab(), Some("https://a.example/page".to_string()));
    assert_eq!(s.pop_closed_tab(), None);
}

#[test]
fn next_and_previous_cycle_and_undo_each_other() {
    let mut s = AppState::default();
    open(&mut s, "https://a.example");
    open(&mut s, "https://b.example");
    open(&mut s, "https://c.example");
    assert_eq!(s.next_tab_target(), Some("tab-1".to_string()));
    assert_eq!(s.prev_tab_target(), Some("tab-2".to_string()));
    let before = s.active_id.clone();
    let n = s.next_tab_target().unwrap();
    s.activate_tab(n);
    let p = s.prev_tab_target().unwrap();
    s.activate_tab(p);
    assert_eq!(s.active_id, before);
    s.active_id = None;
    assert_eq!(s.next_tab_target(), Some("tab-2".to_string()));
    assert_eq!(s.prev_tab_target(), Some("tab-3".to_string()));
}

#[test]
fn a_single_tab_does_not_cycle() {
    let mut s = AppState::default();
    open(&mut s, "newtab.html");
    assert_eq!(s.next_tab_target(), None);
    assert_eq!(s.prev_tab_target(), None);
}

#[test]
fn tab_by_index() {
    let mut s = AppState::default();
    assert_eq!(s.tab_at_index_target(0), None);
    open(&mut s, "https://a.example");
    open(&mut s, "https://b.example");
    assert_eq!(s.tab_at_index_target(0), Some("tab-1".to_string()));
    assert_eq!(s.tab_at_index_target(1), Some("tab-2".to_string()));
    assert_eq!(s.tab_at_index_target(5), None);
    assert_eq!(s.tab_at_index_target(999), Some("tab-2".to_string()));
}

#[test]
fn activation_and_positions() {
    let mut s = AppState::default();
    open(&mut s, "https://a.example");
    open(&mut s, "https://b.example");
    s.toolbar_visible = false;
    assert!(s.is_active("tab-2"));
    assert!(!s.is_active("tab-1"));
    s.activate_tab("tab-1".to_string());
    assert!(s.toolbar_visible);
    assert_eq!(s.active_index(), Some(0));
    assert_eq!(tab_position(&s.tabs, "tab-2"), Some(1));
    assert_eq!(tab_position(&s.tabs, "nope"), None);
    assert_eq!(s.active_tab_url(), Some("https://a.example".to_string()));
    assert_eq!(s.require_active(), Ok("tab-1".to_string()));
    s.active_id = None;
    assert_eq!(s.require_active(), Err("No active tab".to_string()));
    assert_eq!(s.active_index(), None);
}

#[test]
fn navigation_updates() {
    let mut s = AppState::default();
    open(&mut s, "https://a.example");
    assert!(!s.note_navigation("tab-1", "https://a.example".to_string()));
    assert!(s.note_navigation("tab-1", "https://a.example/next".to_string()));
    assert_eq!(s.tabs[0].url, "https://a.example/next");
    assert!(!s.note_navigation("tab-7", "https://x.example".to_string()));
    s.toolbar_visible = false;
    s.finish_navigation("tab-1", "https://z.example/".to_string());
    assert_eq!(s.tabs[0].url, "https://z.example/");
    assert!(s.toolbar_visible);
}

#[test]
fn navigate_actions() {
    let mut s = AppState::default();
    assert_eq!(s.navigate_action(), NavigateAction::OpenTab);
    open(&mut s, "newtab.html");
    assert_eq!(s.navigate_action(), NavigateAction::ReplaceTab("tab-1".to_string()));
    open(&mut s, "https://a.example");
    assert_eq!(s.navigate_action(), NavigateAction::LoadInTab("tab-2".to_string()));
    assert_eq!(s.active_tab_kind(), (Some("tab-2".to_string()), false));
}

#[test]
fn toolbar_toggles() {
    let mut s = AppState::default();
    assert!(!s.toggle_toolbar_visibility());
    assert!(s.toggle_toolbar_visibility());
    s.toolbar_visible = false;
    s.show_toolbar();
    assert!(s.toolbar_visible);
}

#[test]
fn tab_state_copies_the_strip() {
    let mut s = AppState::default();
    open(&mut s, "https://a.example");
    let TabStatePayload { tabs, active_id } = s.tab_state();
    assert_eq!(tabs.len(), 1);
    let TabInfo { id, title, url } = &tabs[0];
    assert_eq!((id.as_str(), title.as_str(), url.as_str()), ("tab-1", "Tab 1", "https://a.example"));
    assert_eq!(active_id, Some("tab-1".to_string()));
}

#[test]
fn missing_tab_error_text() {
    assert_eq!(missing_tab_message("tab-4"), "Tab tab-4 not found");
}

#[test]
fn closing_the_active_tab_by_command() {
    let mut s = AppState::default();
    assert_eq!(s.close_active_tab(), Ok(None));
    open(&mut s, "https://a.example");
    open(&mut s, "https://b.example");
    assert_eq!(s.close_active_tab(), Ok(Some("tab-1".to_string())));
    assert_eq!(ids(&s), vec!["tab-1"]);
    assert_eq!(s.close_active_tab(), Ok(None));
    assert!(s.tabs.is_empty());
    assert_eq!(s.active_id, None);
    s.active_id = Some("gone".to_string());
    assert_eq!(s.close_active_tab(), Err("Tab not found".to_string()));
}

#[test]
fn reopening_restores_the_last_closed_page() {
    let mut s = AppState::default();
    open(&mut s, "https://example.com/");
    open(&mut s, "https://other.example/");
    let stack_before = s.closed_tabs_stack.clone();
    s.close_tab("tab-1").unwrap();
    let url = s.pop_closed_tab();
    assert_eq!(url, Some("https://example.com/".to_string()));
    let target = ghost_browser::input::plan_tab_target(&url, "https://www.google.com/search?q=").unwrap();
    assert_eq!(target, "https://example.com/");
    let id = open(&mut s, &target);
    assert_eq!(s.closed_tabs_stack, stack_before);
    assert_eq!(s.tabs.last().unwrap().url, "https://example.com/");
    assert_eq!(s.active_id, Some(id));
}

#[test]
fn settings_are_replaced() {
    let mut s = AppState::default();
    let mut u = UserSettings::default();
    u.theme = "light".to_string();
    u.max_history_items = 3;
    s.set_settings(u);
    assert_eq!(s.settings.theme, "light");
    assert_eq!(s.settings.max_history_items, 3);
    assert!(s.tabs.is_empty());
}
