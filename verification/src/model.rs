//! The browser's data: tabs, history entries, bookmarks, settings and the whole state.
use vstd::prelude::*;
use crate::text::owned;

verus! {

/// One open tab.
#[derive(Debug)]
pub struct TabInfo {
    pub id: String,
    pub title: String,
    pub url: String,
}

/// A tab as plain character sequences.
pub struct TabView {
    pub id: Seq<char>,
    pub title: Seq<char>,
    pub url: Seq<char>,
}

impl View for TabInfo {
    type V = TabView;

    open spec fn view(&self) -> TabView {
        TabView { id: self.id@, title: self.title@, url: self.url@ }
    }
}

impl Clone for TabInfo {
    fn clone(&self) -> (r: Self)
        ensures
            r == *self,
    {
        TabInfo { id: self.id.clone(), title: self.title.clone(), url: self.url.clone() }
    }
}

/// One visited page.
#[derive(Debug)]
pub struct HistoryEntry {
    pub id: String,
    pub url: String,
    pub title: String,
    pub timestamp: u64,
}

/// A history entry as plain values.
pub struct HistoryView {
    pub id: Seq<char>,
    pub url: Seq<char>,
    pub title: Seq<char>,
    pub timestamp: u64,
}

impl View for HistoryEntry {
    type V = HistoryView;

    open spec fn view(&self) -> HistoryView {
        HistoryView { id: self.id@, url: self.url@, title: self.title@, timestamp: self.timestamp }
    }
}

impl Clone for HistoryEntry {
    fn clone(&self) -> (r: Self)
        ensures
            r == *self,
    {
        HistoryEntry {
            id: self.id.clone(),
            url: self.url.clone(),
            title: self.title.clone(),
            timestamp: self.timestamp,
        }
    }
}

/// One bookmark.
#[derive(Debug)]
pub struct BookmarkEntry {
    pub id: String,
    pub url: String,
    pub title: String,
    pub folder: Option<String>,
    pub created_at: u64,
}

/// A bookmark as plain values.
pub struct BookmarkView {
    pub id: Seq<char>,
    pub url: Seq<char>,
    pub title: Seq<char>,
    pub folder: Option<Seq<char>>,
    pub created_at: u64,
}

/// The characters of an optional string.
pub open spec fn opt_text(o: Option<String>) -> Option<Seq<char>> {
    match o {
        Some(s) => Some(s@),
        None => None,
    }
}

impl View for BookmarkEntry {
    type V = BookmarkView;

    open spec fn view(&self) -> BookmarkView {
        BookmarkView {
            id: self.id@,
            url: self.url@,
            title: self.title@,
            folder: opt_text(self.folder),
            created_at: self.created_at,
        }
    }
}

/// A copy of an optional string.
pub fn copy_opt(o: &Option<String>) -> (r: Option<String>)
    ensures
        r == *o,
{
    match o {
        Some(s) => Some(s.clone()),
        None => None,
    }
}

impl Clone for BookmarkEntry {
    fn clone(&self) -> (r: Self)
        ensures
            r == *self,
    {
        BookmarkEntry {
            id: self.id.clone(),
            url: self.url.clone(),
            title: self.title.clone(),
            folder: copy_opt(&self.folder),
            created_at: self.created_at,
        }
    }
}

/// The user's preferences.
#[derive(Debug)]
pub struct UserSettings {
    pub search_engine: String,
    pub homepage: String,
    pub theme: String,
    pub restore_session: bool,
    pub max_history_items: usize,
}

/// Settings as plain values.
pub struct SettingsView {
    pub search_engine: Seq<char>,
    pub homepage: Seq<char>,
    pub theme: Seq<char>,
    pub restore_session: bool,
    pub max_history_items: usize,
}

impl View for UserSettings {
    type V = SettingsView;

    open spec fn view(&self) -> SettingsView {
        SettingsView {
            search_engine: self.search_engine@,
            homepage: self.homepage@,
            theme: self.theme@,
            restore_session: self.restore_session,
            max_history_items: self.max_history_items,
        }
    }
}

impl Clone for UserSettings {
    fn clone(&self) -> (r: Self)
        ensures
            r == *self,
    {
        UserSettings {
            search_engine: self.search_engine.clone(),
            homepage: self.homepage.clone(),
            theme: self.theme.clone(),
            restore_session: self.restore_session,
            max_history_items: self.max_history_items,
        }
    }
}

/// The settings a fresh profile starts with.
pub open spec fn default_settings() -> SettingsView {
    SettingsView {
        search_engine: "https://www.google.com/search?q="@,
        homepage: "newtab.html"@,
        theme: "dark"@,
        restore_session: true,
        max_history_items: 10000,
    }
}

impl Default for UserSettings {
    fn default() -> (r: Self)
        ensures
            r@ == default_settings(),
    {
        UserSettings {
            search_engine: owned("https://www.google.com/search?q="),
            homepage: owned("newtab.html"),
            theme: owned("dark"),
            restore_session: true,
            max_history_items: 10000,
        }
    }
}

/// Everything the browser keeps between commands.
#[derive(Debug)]
pub struct AppState {
    pub tabs: Vec<TabInfo>,
    pub active_id: Option<String>,
    pub next_tab_num: usize,
    pub toolbar_visible: bool,
    pub closed_tabs_stack: Vec<String>,
    pub history: Vec<HistoryEntry>,
    pub bookmarks: Vec<BookmarkEntry>,
    pub settings: UserSettings,
}

/// The whole state as plain values.
pub struct StateView {
    pub tabs: Seq<TabView>,
    pub active_id: Option<Seq<char>>,
    pub next_tab_num: usize,
    pub toolbar_visible: bool,
    pub closed_tabs_stack: Seq<Seq<char>>,
    pub history: Seq<HistoryView>,
    pub bookmarks: Seq<BookmarkView>,
    pub settings: SettingsView,
}

/// The views of a vector of tabs.
pub open spec fn tabs_view(v: Seq<TabInfo>) -> Seq<TabView> {
    v.map_values(|t: TabInfo| t@)
}

/// The views of a vector of history entries.
pub open spec fn history_view(v: Seq<HistoryEntry>) -> Seq<HistoryView> {
    v.map_values(|h: HistoryEntry| h@)
}

/// The views of a vector of bookmarks.
pub open spec fn bookmarks_view(v: Seq<BookmarkEntry>) -> Seq<BookmarkView> {
    v.map_values(|b: BookmarkEntry| b@)
}

/// The characters of each string.
pub open spec fn texts_view(v: Seq<String>) -> Seq<Seq<char>> {
    v.map_values(|s: String| s@)
}

impl View for AppState {
    type V = StateView;

    open spec fn view(&self) -> StateView {
        StateView {
            tabs: tabs_view(self.tabs@),
            active_id: opt_text(self.active_id),
            next_tab_num: self.next_tab_num,
            toolbar_visible: self.toolbar_visible,
            closed_tabs_stack: texts_view(self.closed_tabs_stack@),
            history: history_view(self.history@),
            bookmarks: bookmarks_view(self.bookmarks@),
            settings: self.settings@,
        }
    }
}

/// The state the browser starts from, before anything is loaded.
pub open spec fn initial_state() -> StateView {
    StateView {
        tabs: Seq::empty(),
        active_id: None,
        next_tab_num: 0,
        toolbar_visible: true,
        closed_tabs_stack: Seq::empty(),
        history: Seq::empty(),
        bookmarks: Seq::empty(),
        settings: default_settings(),
    }
}

impl Default for AppState {
    fn default() -> (r: Self)
        ensures
            r@ == initial_state(),
    {
        let r = AppState {
            tabs: Vec::new(),
            active_id: None,
            next_tab_num: 0,
            toolbar_visible: true,
            closed_tabs_stack: Vec::new(),
            history: Vec::new(),
            bookmarks: Vec::new(),
            settings: UserSettings::default(),
        };
        assert(r@.tabs =~= Seq::<TabView>::empty());
        assert(r@.closed_tabs_stack =~= Seq::<Seq<char>>::empty());
        assert(r@.history =~= Seq::<HistoryView>::empty());
        assert(r@.bookmarks =~= Seq::<BookmarkView>::empty());
        r
    }
}

impl AppState {
    /// Replaces the settings; nothing else changes.
    pub fn set_settings(&mut self, settings: UserSettings)
        ensures
            final(self)@ == (StateView { settings: settings@, ..old(self)@ }),
    {
        self.settings = settings;
    }
}

/// What the tab strip is told: the open tabs and which one is active.
#[derive(Debug)]
pub struct TabStatePayload {
    pub tabs: Vec<TabInfo>,
    pub active_id: Option<String>,
}

} // verus!
