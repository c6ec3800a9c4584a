//! Tab bookkeeping: opening, switching, closing and cycling through tabs.
use vstd::prelude::*;
use crate::model::{opt_text, tabs_view, texts_view, AppState, StateView, TabInfo, TabStatePayload, TabView};
use crate::text::{decimal, lemma_decimal_injective, owned, push_decimal, same_text};
use crate::input::{is_internal, is_newtab_url};

verus! {

/// `i` is the first position of a tab with the id `id`.
pub open spec fn is_first_tab(tabs: Seq<TabView>, id: Seq<char>, i: int) -> bool {
    &&& 0 <= i < tabs.len()
    &&& tabs[i].id == id
    &&& forall|j: int| 0 <= j < i ==> tabs[j].id != id
}

/// Some tab has the id `id`.
pub open spec fn has_tab(tabs: Seq<TabView>, id: Seq<char>) -> bool {
    exists|i: int| 0 <= i < tabs.len() && tabs[i].id == id
}

/// The position of the first tab with the id `id`, if any.
pub open spec fn tab_index(tabs: Seq<TabView>, id: Seq<char>) -> Option<int> {
    if has_tab(tabs, id) {
        Some(choose|i: int| is_first_tab(tabs, id, i))
    } else {
        None
    }
}

proof fn lemma_first_exists(tabs: Seq<TabView>, id: Seq<char>, i: int)
    requires
        0 <= i < tabs.len(),
        tabs[i].id == id,
    ensures
        exists|k: int| is_first_tab(tabs, id, k),
    decreases i,
{
    if exists|j: int| 0 <= j < i && tabs[j].id == id {
        let j = choose|j: int| 0 <= j < i && tabs[j].id == id;
        lemma_first_exists(tabs, id, j);
    } else {
        assert(is_first_tab(tabs, id, i));
    }
}

/// What `tab_index` gives: the first matching position, or nothing when no tab matches.
pub proof fn lemma_tab_index(tabs: Seq<TabView>, id: Seq<char>)
    ensures
        match tab_index(tabs, id) {
            Some(i) => is_first_tab(tabs, id, i),
            None => !has_tab(tabs, id),
        },
{
    if has_tab(tabs, id) {
        let i = choose|i: int| 0 <= i < tabs.len() && tabs[i].id == id;
        lemma_first_exists(tabs, id, i);
    }
}

/// The first matching position is the only one.
pub proof fn lemma_first_unique(tabs: Seq<TabView>, id: Seq<char>, i: int)
    requires
        is_first_tab(tabs, id, i),
    ensures
        tab_index(tabs, id) == Some(i),
{
    lemma_tab_index(tabs, id);
    let k = tab_index(tabs, id)->0;
    if k < i {
        assert(tabs[k].id == id);
    } else if i < k {
        assert(tabs[i].id == id);
    }
}

/// The position of the first tab whose id is `id`.
pub fn tab_position(tabs: &Vec<TabInfo>, id: &str) -> (r: Option<usize>)
    ensures
        match r {
            Some(i) => tab_index(tabs_view(tabs@), id@) == Some(i as int),
            None => tab_index(tabs_view(tabs@), id@) == None::<int>,
        },
        r matches Some(i) ==> is_first_tab(tabs_view(tabs@), id@, i as int),
{
    let ghost tv = tabs_view(tabs@);
    let mut i: usize = 0;
    while i < tabs.len()
        invariant
            tv == tabs_view(tabs@),
            i <= tabs.len(),
            forall|j: int| 0 <= j < i ==> tv[j].id != id@,
        decreases tabs.len() - i,
    {
        if same_text(tabs[i].id.as_str(), id) {
            proof {
                assert(tv[i as int] == tabs@[i as int]@);
                lemma_first_unique(tv, id@, i as int);
            }
            return Some(i);
        }
        assert(tv[i as int] == tabs@[i as int]@);
        i += 1;
    }
    proof {
        lemma_tab_index(tv, id@);
    }
    None
}

/// The position of the active tab in the tab strip, if there is an active tab that is open.
pub open spec fn active_pos(s: StateView) -> Option<int> {
    match s.active_id {
        Some(a) => tab_index(s.tabs, a),
        None => None,
    }
}

impl AppState {
    /// The position of the active tab, if the active id names an open tab.
    pub fn active_index(&self) -> (r: Option<usize>)
        ensures
            match r {
                Some(i) => active_pos(self@) == Some(i as int),
                None => active_pos(self@) == None::<int>,
            },
            r matches Some(i) ==> i < self.tabs.len(),
    {
        proof {
            if self@.active_id is Some {
                lemma_tab_index(self@.tabs, self@.active_id->0);
            }
        }
        match &self.active_id {
            Some(a) => tab_position(&self.tabs, a.as_str()),
            None => None,
        }
    }
}

/// The position the tab cycling starts from: the active tab's, or the first.
pub open spec fn cycle_start(s: StateView) -> int {
    match active_pos(s) {
        Some(p) => p,
        None => 0,
    }
}

/// How `navigate` proceeds in the current state.
#[derive(Debug, Clone, PartialEq, Eq)]
pub enum NavigateAction {
    /// The active tab (this id) shows an internal page: close it and open a new tab instead.
    ReplaceTab(String),
    /// Load the address in the active tab (this id), if its view exists.
    LoadInTab(String),
    /// There is no active tab: open a new tab.
    OpenTab,
}

/// The position after `p` in a strip of `n` tabs, wrapping to the first.
pub open spec fn after(p: int, n: int) -> int {
    (p + 1) % n
}

/// The position before `p` in a strip of `n` tabs, wrapping to the last.
pub open spec fn before(p: int, n: int) -> int {
    if p == 0 {
        n - 1
    } else {
        p - 1
    }
}

/// The tab `next_tab` switches to: none with fewer than two tabs.
pub open spec fn next_target(s: StateView) -> Option<Seq<char>> {
    if s.tabs.len() <= 1 {
        None
    } else {
        Some(s.tabs[after(cycle_start(s), s.tabs.len() as int)].id)
    }
}

/// The tab `prev_tab` switches to: none with fewer than two tabs.
pub open spec fn prev_target(s: StateView) -> Option<Seq<char>> {
    if s.tabs.len() <= 1 {
        None
    } else {
        Some(s.tabs[before(cycle_start(s), s.tabs.len() as int)].id)
    }
}

/// The tab `switch_tab_by_index` switches to; the index 999 stands for the last tab.
pub open spec fn index_target(s: StateView, index: usize) -> Option<Seq<char>> {
    if s.tabs.len() == 0 {
        None
    } else if index == 999 {
        Some(s.tabs.last().id)
    } else if index < s.tabs.len() {
        Some(s.tabs[index as int].id)
    } else {
        None
    }
}

/// The state after making `id` the active tab; the toolbar is shown.
pub open spec fn activated(s: StateView, id: Seq<char>) -> StateView {
    StateView { active_id: Some(id), toolbar_visible: true, ..s }
}

/// A closed tab's address is remembered for reopening when it is neither empty nor internal.
pub open spec fn recordable(url: Seq<char>) -> bool {
    url.len() > 0 && !is_internal(url)
}

/// The state after closing the tab at position `pos`, which has the id `id`: its address is
/// pushed on the closed-tab stack when recordable; if it was active, the tab now at its
/// position (or the last tab) becomes active, or none when no tab is left.
pub open spec fn closed_at(s: StateView, id: Seq<char>, pos: int) -> StateView {
    let url = s.tabs[pos].url;
    let stack = if recordable(url) {
        s.closed_tabs_stack.push(url)
    } else {
        s.closed_tabs_stack
    };
    let tabs = s.tabs.remove(pos);
    if s.active_id == Some(id) {
        if tabs.len() == 0 {
            StateView { tabs, closed_tabs_stack: stack, active_id: None, toolbar_visible: true, ..s }
        } else {
            let np = if pos < tabs.len() {
                pos
            } else {
                tabs.len() - 1
            };
            StateView {
                tabs,
                closed_tabs_stack: stack,
                active_id: Some(tabs[np].id),
                toolbar_visible: true,
                ..s
            }
        }
    } else {
        StateView { tabs, closed_tabs_stack: stack, ..s }
    }
}

/// The tab that becomes active when the tab at `pos` is closed, if one does.
pub open spec fn successor_on_close(s: StateView, id: Seq<char>, pos: int) -> Option<Seq<char>> {
    if s.active_id == Some(id) && s.tabs.len() > 1 {
        closed_at(s, id, pos).active_id
    } else {
        None
    }
}

/// The id of the tab numbered `k`.
pub open spec fn tab_id_for(k: nat) -> Seq<char> {
    "tab-"@ + decimal(k)
}

/// The title a new tab starts with.
pub open spec fn friendly_title(target: Seq<char>, num: nat) -> Seq<char> {
    if target == "newtab.html"@ {
        "New Tab"@
    } else if target == "history.html"@ {
        "History"@
    } else if target == "bookmarks.html"@ {
        "Bookmarks"@
    } else if target == "settings.html"@ {
        "Settings"@
    } else {
        "Tab "@ + decimal(num)
    }
}

/// The state after adding the tab `id`, numbered `num`, showing `target`, and activating it.
pub open spec fn opened(s: StateView, id: Seq<char>, num: nat, target: Seq<char>) -> StateView {
    StateView {
        tabs: s.tabs.push(TabView { id, title: friendly_title(target, num), url: target }),
        active_id: Some(id),
        toolbar_visible: true,
        ..s
    }
}

/// The state with the tab `id` (the first with that id) showing `url`; unchanged if no tab
/// has that id.
pub open spec fn with_tab_url(s: StateView, id: Seq<char>, url: Seq<char>) -> StateView {
    match tab_index(s.tabs, id) {
        Some(i) => StateView { tabs: s.tabs.update(i, TabView { url, ..s.tabs[i] }), ..s },
        None => s,
    }
}

/// The address of the active tab, if the active id names an open tab.
pub open spec fn active_url(s: StateView) -> Option<Seq<char>> {
    match active_pos(s) {
        Some(i) => Some(s.tabs[i].url),
        None => None,
    }
}

fn tab_id_text(num: usize) -> (r: String)
    ensures
        r@ == tab_id_for(num as nat),
{
    let mut r = owned("tab-");
    push_decimal(&mut r, num as u64);
    r
}

fn title_for(target: &str, num: usize) -> (r: String)
    ensures
        r@ == friendly_title(target@, num as nat),
{
    if same_text(target, "newtab.html") {
        owned("New Tab")
    } else if same_text(target, "history.html") {
        owned("History")
    } else if same_text(target, "bookmarks.html") {
        owned("Bookmarks")
    } else if same_text(target, "settings.html") {
        owned("Settings")
    } else {
        let mut r = owned("Tab ");
        push_decimal(&mut r, num as u64);
        r
    }
}

impl AppState {
    /// Whether `id` is the active tab already.
    pub fn is_active(&self, id: &str) -> (r: bool)
        ensures
            r == (self@.active_id == Some(id@)),
    {
        match &self.active_id {
            Some(a) => same_text(a.as_str(), id),
            None => false,
        }
    }

    /// Makes `id` the active tab and shows the toolbar.
    pub fn activate_tab(&mut self, id: String)
        ensures
            final(self)@ == activated(old(self)@, id@),
    {
        self.active_id = Some(id);
        self.toolbar_visible = true;
    }

    /// The tab to switch to for "next tab".
    pub fn next_tab_target(&self) -> (r: Option<String>)
        ensures
            opt_text(r) == next_target(self@),
    {
        let n = self.tabs.len();
        if n <= 1 {
            return None;
        }
        let pos = match self.active_index() {
            Some(p) => p,
            None => 0,
        };
        proof {
            lemma_tab_index(self@.tabs, self@.active_id.unwrap_or(Seq::empty()));
        }
        let next = (pos + 1) % n;
        Some(self.tabs[next].id.clone())
    }

    /// The tab to switch to for "previous tab".
    pub fn prev_tab_target(&self) -> (r: Option<String>)
        ensures
            opt_text(r) == prev_target(self@),
    {
        let n = self.tabs.len();
        if n <= 1 {
            return None;
        }
        let pos = match self.active_index() {
            Some(p) => p,
            None => 0,
        };
        proof {
            lemma_tab_index(self@.tabs, self@.active_id.unwrap_or(Seq::empty()));
        }
        let prev = if pos == 0 {
            n - 1
        } else {
            pos - 1
        };
        Some(self.tabs[prev].id.clone())
    }

    /// The tab to switch to for "tab number `index`" (999: the last tab).
    pub fn tab_at_index_target(&self, index: usize) -> (r: Option<String>)
        ensures
            opt_text(r) == index_target(self@, index),
    {
        let n = self.tabs.len();
        if n == 0 {
            None
        } else if index == 999 {
            Some(self.tabs[n - 1].id.clone())
        } else if index < n {
            Some(self.tabs[index].id.clone())
        } else {
            None
        }
    }

    /// Closes the tab `id`: fails with "Tab not found" when no tab has that id; otherwise
    /// returns the tab that became active in its place, if any.
    pub fn close_tab(&mut self, id: &str) -> (r: Result<Option<String>, String>)
        ensures
            match tab_index(old(self)@.tabs, id@) {
                None => r matches Err(e) && e@ == "Tab not found"@ && final(self)@ == old(self)@,
                Some(pos) => r matches Ok(next) && final(self)@ == closed_at(old(self)@, id@, pos)
                    && opt_text(next) == successor_on_close(old(self)@, id@, pos),
            },
    {
        let ghost s0 = self@;
        let pos = match tab_position(&self.tabs, id) {
            Some(p) => p,
            None => {
                return Err(owned("Tab not found"));
            },
        };
        proof {
            lemma_tab_index(s0.tabs, id@);
            assert(s0.tabs[pos as int] == self.tabs@[pos as int]@);
        }
        let closed_url = self.tabs[pos].url.clone();
        if !closed_url.as_str().is_empty() && !is_newtab_url(closed_url.as_str()) {
            let ghost before = self.closed_tabs_stack@;
            self.closed_tabs_stack.push(closed_url);
            assert(texts_view(self.closed_tabs_stack@) =~= texts_view(before).push(
                s0.tabs[pos as int].url,
            ));
        }
        let ghost before_tabs = self.tabs@;
        self.tabs.remove(pos);
        assert(tabs_view(self.tabs@) =~= tabs_view(before_tabs).remove(pos as int));
        if self.is_active(id) {
            if self.tabs.len() == 0 {
                self.active_id = None;
                self.toolbar_visible = true;
                return Ok(None);
            } else {
                let n = self.tabs.len();
                let np = if pos < n {
                    pos
                } else {
                    n - 1
                };
                let new_id = self.tabs[np].id.clone();
                assert(self@.tabs[np as int] == self.tabs@[np as int]@);
                self.toolbar_visible = true;
                self.active_id = Some(new_id.clone());
                return Ok(Some(new_id));
            }
        }
        Ok(None)
    }

    /// Takes the next tab number and returns the new tab's id and number.
    pub fn allocate_tab(&mut self) -> (r: (String, usize))
        requires
            old(self).next_tab_num < usize::MAX,
        ensures
            final(self)@ == (StateView { next_tab_num: (old(self).next_tab_num + 1) as usize, ..old(self)@ }),
            r.1 == old(self).next_tab_num + 1,
            r.0@ == tab_id_for(r.1 as nat),
    {
        self.next_tab_num = self.next_tab_num + 1;
        let num = self.next_tab_num;
        (tab_id_text(num), num)
    }

    /// Adds the tab `id`, numbered `num`, showing `target`, and makes it the active tab.
    pub fn open_tab(&mut self, id: String, num: usize, target: String)
        ensures
            final(self)@ == opened(old(self)@, id@, num as nat, target@),
    {
        let title = title_for(target.as_str(), num);
        let ghost before = self.tabs@;
        let tab = TabInfo { id: id.clone(), title, url: target };
        self.tabs.push(tab);
        assert(tabs_view(self.tabs@) =~= tabs_view(before).push(
            TabView { id: id@, title: friendly_title(target@, num as nat), url: target@ },
        ));
        self.active_id = Some(id);
        self.toolbar_visible = true;
    }

    /// Sets the address shown by the tab `id`, if it is open.
    pub fn set_tab_url(&mut self, id: &str, url: String)
        ensures
            final(self)@ == with_tab_url(old(self)@, id@, url@),
    {
        match tab_position(&self.tabs, id) {
            Some(i) => {
                let ghost before = self.tabs@;
                let old_tab = &self.tabs[i];
                let tab = TabInfo { id: old_tab.id.clone(), title: old_tab.title.clone(), url };
                self.tabs.set(i, tab);
                assert(tabs_view(self.tabs@) =~= tabs_view(before).update(
                    i as int,
                    TabView { url: url@, ..tabs_view(before)[i as int] },
                ));
            },
            None => {},
        }
    }

    /// Records that the tab `id` navigated to `url`; returns whether its address changed.
    pub fn note_navigation(&mut self, id: &str, url: String) -> (changed: bool)
        ensures
            changed == (match tab_index(old(self)@.tabs, id@) {
                Some(i) => old(self)@.tabs[i].url != url@,
                None => false,
            }),
            final(self)@ == (if changed {
                with_tab_url(old(self)@, id@, url@)
            } else {
                old(self)@
            }),
    {
        match tab_position(&self.tabs, id) {
            Some(i) => {
                assert(self@.tabs[i as int] == self.tabs@[i as int]@);
                if self.tabs[i].url == url {
                    false
                } else {
                    self.set_tab_url(id, url);
                    true
                }
            },
            None => false,
        }
    }

    /// The active tab's address, if the active id names an open tab.
    pub fn active_tab_url(&self) -> (r: Option<String>)
        ensures
            opt_text(r) == active_url(self@),
    {
        match self.active_index() {
            Some(i) => {
                assert(self@.tabs[i as int] == self.tabs@[i as int]@);
                Some(self.tabs[i].url.clone())
            },
            None => None,
        }
    }

    /// The active tab's id, or "No active tab".
    pub fn require_active(&self) -> (r: Result<String, String>)
        ensures
            match self@.active_id {
                Some(a) => r matches Ok(id) && id@ == a,
                None => r matches Err(e) && e@ == "No active tab"@,
            },
    {
        match &self.active_id {
            Some(a) => Ok(a.clone()),
            None => Err(owned("No active tab")),
        }
    }

    /// Shows the toolbar.
    pub fn show_toolbar(&mut self)
        ensures
            final(self)@ == (StateView { toolbar_visible: true, ..old(self)@ }),
    {
        self.toolbar_visible = true;
    }

    /// Flips the toolbar's visibility and returns the new visibility.
    pub fn toggle_toolbar_visibility(&mut self) -> (shown: bool)
        ensures
            shown == !old(self).toolbar_visible,
            final(self)@ == (StateView { toolbar_visible: shown, ..old(self)@ }),
    {
        self.toolbar_visible = !self.toolbar_visible;
        self.toolbar_visible
    }

    /// Takes the most recently closed tab's address off the stack, if any.
    pub fn pop_closed_tab(&mut self) -> (r: Option<String>)
        ensures
            old(self)@.closed_tabs_stack.len() == 0 ==> r is None && final(self)@ == old(self)@,
            old(self)@.closed_tabs_stack.len() > 0 ==> (r matches Some(u) && u@
                == old(self)@.closed_tabs_stack.last() && final(self)@ == (StateView {
                closed_tabs_stack: old(self)@.closed_tabs_stack.drop_last(),
                ..old(self)@
            })),
    {
        let ghost before = self.closed_tabs_stack@;
        let r = self.closed_tabs_stack.pop();
        proof {
            if before.len() > 0 {
                assert(texts_view(self.closed_tabs_stack@) =~= texts_view(before).drop_last());
            }
        }
        r
    }

    /// The active tab's id and whether that tab shows an internal page (false when the
    /// active id names no open tab).
    pub fn active_tab_kind(&self) -> (r: (Option<String>, bool))
        ensures
            opt_text(r.0) == self@.active_id,
            r.1 == (match active_url(self@) {
                Some(u) => is_internal(u),
                None => false,
            }),
    {
        let id = match &self.active_id {
            Some(a) => Some(a.clone()),
            None => None,
        };
        let internal = match self.active_tab_url() {
            Some(u) => is_newtab_url(u.as_str()),
            None => false,
        };
        (id, internal)
    }

    /// The tab strip's contents: a copy of the tabs and the active id.
    pub fn tab_state(&self) -> (r: TabStatePayload)
        ensures
            tabs_view(r.tabs@) == self@.tabs,
            opt_text(r.active_id) == self@.active_id,
    {
        let mut tabs: Vec<TabInfo> = Vec::new();
        let mut i: usize = 0;
        while i < self.tabs.len()
            invariant
                i <= self.tabs.len(),
                tabs@ == self.tabs@.take(i as int),
            decreases self.tabs.len() - i,
        {
            tabs.push(self.tabs[i].clone());
            assert(self.tabs@.take(i + 1) =~= self.tabs@.take(i as int).push(self.tabs@[i as int]));
            i += 1;
        }
        assert(self.tabs@.take(i as int) =~= self.tabs@);
        TabStatePayload { tabs, active_id: crate::model::copy_opt(&self.active_id) }
    }
}

impl AppState {
    /// How `navigate` proceeds: replace an active tab showing an internal page, load into
    /// the active tab, or open a new tab when none is active.
    pub fn navigate_action(&self) -> (r: NavigateAction)
        ensures
            match self@.active_id {
                None => r == NavigateAction::OpenTab,
                Some(a) => match r {
                    NavigateAction::ReplaceTab(id) => id@ == a && (active_url(self@) matches Some(
                        u,
                    ) && is_internal(u)),
                    NavigateAction::LoadInTab(id) => id@ == a && !(active_url(self@) matches Some(
                        u,
                    ) && is_internal(u)),
                    NavigateAction::OpenTab => false,
                },
            },
    {
        let (id, internal) = self.active_tab_kind();
        match id {
            Some(a) => if internal {
                NavigateAction::ReplaceTab(a)
            } else {
                NavigateAction::LoadInTab(a)
            },
            None => NavigateAction::OpenTab,
        }
    }

    /// Closes the active tab, if there is one; the result is that of `close_tab` on the
    /// active id, or `Ok(None)` with nothing changed when no tab is active.
    pub fn close_active_tab(&mut self) -> (r: Result<Option<String>, String>)
        ensures
            match old(self)@.active_id {
                None => r == Ok::<Option<String>, String>(None) && final(self)@ == old(self)@,
                Some(a) => match tab_index(old(self)@.tabs, a) {
                    None => r matches Err(e) && e@ == "Tab not found"@ && final(self)@ == old(
                        self,
                    )@,
                    Some(pos) => r matches Ok(next) && final(self)@ == closed_at(old(self)@, a, pos)
                        && opt_text(next) == successor_on_close(old(self)@, a, pos),
                },
            },
    {
        match &self.active_id {
            Some(a) => {
                let id = a.clone();
                self.close_tab(id.as_str())
            },
            None => Ok(None),
        }
    }

    /// Records that the active tab `id` was sent to `url`: the tab shows the address and the
    /// toolbar is shown.
    pub fn finish_navigation(&mut self, id: &str, url: String)
        ensures
            final(self)@ == (StateView { toolbar_visible: true, ..with_tab_url(old(self)@, id@, url@) }),
    {
        self.set_tab_url(id, url);
        self.toolbar_visible = true;
    }
}

/// The error for switching to a tab whose view does not exist: "Tab <id> not found".
pub fn missing_tab_message(id: &str) -> (r: String)
    ensures
        r@ == "Tab "@ + id@ + " not found"@,
{
    crate::text::join3("Tab ", id, " not found")
}

// ---------------------------------------------------------------------------------------
// Laws
// ---------------------------------------------------------------------------------------

/// The tab strip is consistent: tab ids are distinct, each is the id of a number already
/// handed out, and the active id, if any, names an open tab.
pub open spec fn tabs_consistent(s: StateView) -> bool {
    &&& forall|i: int, j: int|
        0 <= i < j < s.tabs.len() ==> #[trigger] s.tabs[i].id != #[trigger] s.tabs[j].id
    &&& forall|i: int|
        #![trigger s.tabs[i]]
        0 <= i < s.tabs.len() ==> exists|k: nat|
            #![trigger tab_id_for(k)]
            1 <= k <= s.next_tab_num && s.tabs[i].id == tab_id_for(k)
    &&& match s.active_id {
        Some(a) => has_tab(s.tabs, a),
        None => true,
    }
}

/// Different tab numbers give different tab ids.
pub proof fn lemma_tab_id_injective(a: nat, b: nat)
    requires
        tab_id_for(a) == tab_id_for(b),
    ensures
        a == b,
{
    reveal_strlit("tab-");
    assert(tab_id_for(a).skip(4) =~= decimal(a));
    assert(tab_id_for(b).skip(4) =~= decimal(b));
    lemma_decimal_injective(a, b);
}

/// In a consistent strip every open tab is found at its own position.
pub proof fn lemma_index_of_own_id(s: StateView, i: int)
    requires
        tabs_consistent(s),
        0 <= i < s.tabs.len(),
    ensures
        tab_index(s.tabs, s.tabs[i].id) == Some(i),
{
    assert(is_first_tab(s.tabs, s.tabs[i].id, i)) by {
        assert forall|j: int| 0 <= j < i implies s.tabs[j].id != s.tabs[i].id by {
            assert(s.tabs[j].id != s.tabs[i].id);
        }
    }
    lemma_first_unique(s.tabs, s.tabs[i].id, i);
}

/// The fresh starting state is consistent.
pub proof fn law_initial_state_consistent()
    ensures
        tabs_consistent(crate::model::initial_state()),
{
}

/// Opening a tab (taking the next number, then adding and activating the tab) gives it an id
/// no open tab has, and keeps the strip consistent.
pub proof fn law_new_tab_consistent(s: StateView, target: Seq<char>)
    requires
        tabs_consistent(s),
        s.next_tab_num < usize::MAX,
    ensures
        ({
            let n = (s.next_tab_num + 1) as usize;
            let s1 = StateView { next_tab_num: n, ..s };
            &&& !has_tab(s.tabs, tab_id_for(n as nat))
            &&& tabs_consistent(opened(s1, tab_id_for(n as nat), n as nat, target))
        }),
{
    let n = (s.next_tab_num + 1) as usize;
    let id = tab_id_for(n as nat);
    let s1 = StateView { next_tab_num: n, ..s };
    let s2 = opened(s1, id, n as nat, target);
    assert forall|i: int| 0 <= i < s.tabs.len() implies s.tabs[i].id != id by {
        let k = choose|k: nat| 1 <= k <= s.next_tab_num && s.tabs[i].id == tab_id_for(k);
        if s.tabs[i].id == id {
            lemma_tab_id_injective(k, n as nat);
        }
    }
    assert forall|i: int|
        #![trigger s2.tabs[i]]
        0 <= i < s2.tabs.len() implies exists|k: nat|
            #![trigger tab_id_for(k)]
            1 <= k <= s2.next_tab_num && s2.tabs[i].id == tab_id_for(k) by {
        if i < s.tabs.len() {
            assert(s2.tabs[i] == s.tabs[i]);
            let k = choose|k: nat| 1 <= k <= s.next_tab_num && s.tabs[i].id == tab_id_for(k);
            assert(1 <= k <= s2.next_tab_num && s2.tabs[i].id == tab_id_for(k));
        } else {
            assert(s2.tabs[i].id == tab_id_for(n as nat));
        }
    }
    assert forall|i: int, j: int|
        0 <= i < j < s2.tabs.len() implies #[trigger] s2.tabs[i].id != #[trigger] s2.tabs[j].id by {
        if j == s.tabs.len() {
            assert(s2.tabs[i] == s.tabs[i]);
        } else {
            assert(s2.tabs[i] == s.tabs[i]);
            assert(s2.tabs[j] == s.tabs[j]);
        }
    }
    assert(s2.tabs[s.tabs.len() as int].id == id);
}

/// Making an open tab active keeps the strip consistent.
pub proof fn law_activate_consistent(s: StateView, id: Seq<char>)
    requires
        tabs_consistent(s),
        has_tab(s.tabs, id),
    ensures
        tabs_consistent(activated(s, id)),
{
}

/// Closing a tab removes exactly that tab, leaves the others in order, and keeps the strip
/// consistent; no open tab has the closed id afterwards.
pub proof fn law_close_consistent(s: StateView, id: Seq<char>)
    requires
        tabs_consistent(s),
        has_tab(s.tabs, id),
    ensures
        ({
            let pos = tab_index(s.tabs, id)->0;
            let c = closed_at(s, id, pos);
            &&& c.tabs == s.tabs.remove(pos)
            &&& !has_tab(c.tabs, id)
            &&& tabs_consistent(c)
        }),
{
    lemma_tab_index(s.tabs, id);
    let pos = tab_index(s.tabs, id)->0;
    let c = closed_at(s, id, pos);
    let t = s.tabs.remove(pos);
    assert(c.tabs == t);
    assert forall|i: int| 0 <= i < t.len() implies t[i].id != id by {
        if i < pos {
            assert(t[i] == s.tabs[i]);
        } else {
            assert(t[i] == s.tabs[i + 1]);
            assert(s.tabs[pos].id != s.tabs[i + 1].id);
        }
    }
    assert forall|i: int, j: int|
        0 <= i < j < t.len() implies #[trigger] t[i].id != #[trigger] t[j].id by {
        let oi = if i < pos { i } else { i + 1 };
        let oj = if j < pos { j } else { j + 1 };
        assert(t[i] == s.tabs[oi]);
        assert(t[j] == s.tabs[oj]);
        assert(s.tabs[oi].id != s.tabs[oj].id);
    }
    assert forall|i: int|
        #![trigger t[i]]
        0 <= i < t.len() implies exists|k: nat|
            #![trigger tab_id_for(k)]
            1 <= k <= c.next_tab_num && t[i].id == tab_id_for(k) by {
        let oi = if i < pos { i } else { i + 1 };
        assert(t[i] == s.tabs[oi]);
        let k = choose|k: nat| 1 <= k <= s.next_tab_num && s.tabs[oi].id == tab_id_for(k);
        assert(1 <= k <= c.next_tab_num && t[i].id == tab_id_for(k));
    }
    match s.active_id {
        Some(a) => {
            if a != id {
                lemma_tab_index(s.tabs, a);
                let ai = tab_index(s.tabs, a)->0;
                let ni = if ai < pos { ai } else { ai - 1 };
                assert(t[ni] == s.tabs[ai]);
            } else if t.len() > 0 {
                let np = if pos < t.len() { pos } else { t.len() - 1 };
                assert(c.active_id == Some(t[np].id));
            }
        },
        None => {},
    }
}

/// Closing a tab whose address is worth remembering puts that address on top of the
/// closed-tab stack, so reopening gives it back.
pub proof fn law_close_then_reopen(s: StateView, id: Seq<char>, pos: int)
    requires
        tab_index(s.tabs, id) == Some(pos),
        recordable(s.tabs[pos].url),
    ensures
        closed_at(s, id, pos).closed_tabs_stack.len() > 0,
        closed_at(s, id, pos).closed_tabs_stack.last() == s.tabs[pos].url,
{
}

/// Changing the address of a tab keeps the strip consistent.
pub proof fn law_tab_url_consistent(s: StateView, id: Seq<char>, url: Seq<char>)
    requires
        tabs_consistent(s),
    ensures
        tabs_consistent(with_tab_url(s, id, url)),
{
    lemma_tab_index(s.tabs, id);
    match tab_index(s.tabs, id) {
        Some(i) => {
            let t = with_tab_url(s, id, url).tabs;
            assert forall|j: int| 0 <= j < t.len() implies #[trigger] t[j].id == s.tabs[j].id by {}
            assert forall|a: Seq<char>| has_tab(s.tabs, a) implies has_tab(t, a) by {
                let j = choose|j: int| 0 <= j < s.tabs.len() && s.tabs[j].id == a;
                assert(t[j].id == a);
            }
            assert forall|j: int|
                #![trigger t[j]]
                0 <= j < t.len() implies exists|k: nat|
                    #![trigger tab_id_for(k)]
                    1 <= k <= s.next_tab_num && t[j].id == tab_id_for(k) by {
                assert(t[j].id == s.tabs[j].id);
                let k = choose|k: nat| 1 <= k <= s.next_tab_num && s.tabs[j].id == tab_id_for(k);
            }
        },
        None => {},
    }
}

proof fn lemma_wrap(p: int, n: int)
    requires
        0 <= p < n,
    ensures
        after(p, n) == (if p + 1 == n {
            0
        } else {
            p + 1
        }),
{
    if p + 1 == n {
        vstd::arithmetic::div_mod::lemma_mod_self_0(n);
    } else {
        vstd::arithmetic::div_mod::lemma_small_mod((p + 1) as nat, n as nat);
    }
}

/// With at least two tabs and an open active tab, "previous tab" after "next tab" returns to
/// the tab that was active, and "next tab" after "previous tab" does too.
pub proof fn law_next_prev_inverse(s: StateView)
    requires
        tabs_consistent(s),
        s.tabs.len() > 1,
        active_pos(s) is Some,
    ensures
        prev_target(activated(s, next_target(s)->0)) == s.active_id,
        next_target(activated(s, prev_target(s)->0)) == s.active_id,
{
    let n = s.tabs.len() as int;
    let p = active_pos(s)->0;
    lemma_tab_index(s.tabs, s.active_id->0);
    let q = after(p, n);
    let r = before(p, n);
    lemma_wrap(p, n);
    lemma_index_of_own_id(s, q);
    lemma_index_of_own_id(s, r);
    lemma_index_of_own_id(s, p);
    let s_next = activated(s, s.tabs[q].id);
    let s_prev = activated(s, s.tabs[r].id);
    assert(active_pos(s_next) == Some(q));
    assert(active_pos(s_prev) == Some(r));
    lemma_wrap(r, n);
}

/// Reopening the most recently closed tab brings its page back: closing a tab whose
/// address `u` is remembered, then taking `u` off the stack and opening a tab for it (when
/// the new-tab rules send `u` to itself, e.g. a normalized `https` address), leaves the
/// closed-tab stack as it was and makes a tab showing `u` the last and active one. With an
/// empty stack a new-tab page opens instead.
pub proof fn law_reopen_closed_tab(s: StateView, id: Seq<char>, pos: int, engine: Seq<char>)
    requires
        tab_index(s.tabs, id) == Some(pos),
        recordable(s.tabs[pos].url),
        crate::input::tab_target(Some(s.tabs[pos].url), engine) == Ok::<Seq<char>, Seq<char>>(
            s.tabs[pos].url,
        ),
        s.next_tab_num < usize::MAX,
    ensures
        ({
            let u = s.tabs[pos].url;
            let c = closed_at(s, id, pos);
            let popped = StateView { closed_tabs_stack: c.closed_tabs_stack.drop_last(), ..c };
            let n = (c.next_tab_num + 1) as usize;
            let r = opened(StateView { next_tab_num: n, ..popped }, tab_id_for(n as nat), n as nat, u);
            &&& c.closed_tabs_stack.last() == u
            &&& r.closed_tabs_stack == s.closed_tabs_stack
            &&& r.tabs.last().url == u
            &&& r.active_id == Some(r.tabs.last().id)
        }),
        crate::input::tab_target(None, engine) == Ok::<Seq<char>, Seq<char>>("newtab.html"@),
{
    let c = closed_at(s, id, pos);
    assert(c.closed_tabs_stack.drop_last() =~= s.closed_tabs_stack);
}

/// Closing the active tab hands activity to its right-hand neighbour, or to its left-hand
/// neighbour when it was the last tab; `close_tab` reports that tab. Closing the only tab
/// leaves no active tab, and closing another tab leaves the active tab as it was. The
/// closed address goes on the reopen stack exactly when it is non-empty and not internal.
pub proof fn law_close_hands_over_to_neighbour(s: StateView, id: Seq<char>, pos: int)
    requires
        tab_index(s.tabs, id) == Some(pos),
    ensures
        s.active_id == Some(id) && pos + 1 < s.tabs.len() ==> closed_at(s, id, pos).active_id
            == Some(s.tabs[pos + 1].id) && successor_on_close(s, id, pos) == Some(
            s.tabs[pos + 1].id,
        ),
        s.active_id == Some(id) && pos + 1 == s.tabs.len() && pos > 0 ==> closed_at(
            s,
            id,
            pos,
        ).active_id == Some(s.tabs[pos - 1].id) && successor_on_close(s, id, pos) == Some(
            s.tabs[pos - 1].id,
        ),
        s.active_id == Some(id) && s.tabs.len() == 1 ==> closed_at(s, id, pos).active_id
            == None::<Seq<char>> && successor_on_close(s, id, pos) == None::<Seq<char>>,
        s.active_id != Some(id) ==> closed_at(s, id, pos).active_id == s.active_id
            && successor_on_close(s, id, pos) == None::<Seq<char>>,
        closed_at(s, id, pos).tabs.len() == s.tabs.len() - 1,
        forall|j: int| 0 <= j < pos ==> #[trigger] closed_at(s, id, pos).tabs[j] == s.tabs[j],
        forall|j: int|
            pos <= j < s.tabs.len() - 1 ==> #[trigger] closed_at(s, id, pos).tabs[j] == s.tabs[j + 1],
        s.tabs[pos].url.len() > 0 && !is_internal(s.tabs[pos].url) ==> closed_at(s, id, pos).closed_tabs_stack
            == s.closed_tabs_stack.push(s.tabs[pos].url),
        !(s.tabs[pos].url.len() > 0 && !is_internal(s.tabs[pos].url)) ==> closed_at(s, id, pos).closed_tabs_stack
            == s.closed_tabs_stack,
{
    lemma_tab_index(s.tabs, id);
}

/// A new tab on one of the browser's own pages is titled after that page (new tab "New Tab",
/// history "History", bookmarks "Bookmarks", settings "Settings"); a tab on any other
/// address is titled "Tab " and its number. The new tab is the last one, shows the target
/// and is active.
pub proof fn law_new_tab_title(s: StateView, id: Seq<char>, num: nat, target: Seq<char>)
    ensures
        ({
            let t = opened(s, id, num, target).tabs;
            &&& t.len() == s.tabs.len() + 1
            &&& t.last().id == id
            &&& t.last().url == target
            &&& opened(s, id, num, target).active_id == Some(id)
            &&& target == "newtab.html"@ ==> t.last().title == "New Tab"@
            &&& target == "history.html"@ ==> t.last().title == "History"@
            &&& target == "bookmarks.html"@ ==> t.last().title == "Bookmarks"@
            &&& target == "settings.html"@ ==> t.last().title == "Settings"@
            &&& target != "newtab.html"@ && target != "history.html"@ && target
                != "bookmarks.html"@ && target != "settings.html"@ ==> t.last().title == "Tab "@
                + decimal(num)
        }),
{
    reveal_strlit("newtab.html");
    reveal_strlit("history.html");
    reveal_strlit("bookmarks.html");
    reveal_strlit("settings.html");
}

/// With two or more tabs, "next tab" goes to the tab right of the active one and wraps from
/// the last to the first; "previous tab" goes left and wraps from the first to the last.
/// Without an open active tab both count from the first tab. With fewer than two tabs
/// neither moves. "Tab number" 999 is the last tab, and an index inside the strip is that
/// tab.
pub proof fn law_cycle_directions(s: StateView, index: usize)
    ensures
        s.tabs.len() <= 1 ==> next_target(s) == None::<Seq<char>> && prev_target(s) == None::<
            Seq<char>,
        >,
        s.tabs.len() > 1 ==> match active_pos(s) {
            Some(p) => {
                &&& p + 1 < s.tabs.len() ==> next_target(s) == Some(s.tabs[p + 1].id)
                &&& p + 1 == s.tabs.len() ==> next_target(s) == Some(s.tabs[0].id)
                &&& p > 0 ==> prev_target(s) == Some(s.tabs[p - 1].id)
                &&& p == 0 ==> prev_target(s) == Some(s.tabs.last().id)
            },
            None => next_target(s) == Some(s.tabs[1].id) && prev_target(s) == Some(
                s.tabs.last().id,
            ),
        },
        s.tabs.len() > 0 && index == 999 ==> index_target(s, index) == Some(s.tabs.last().id),
        index != 999 && index < s.tabs.len() ==> index_target(s, index) == Some(
            s.tabs[index as int].id,
        ),
        index != 999 && index >= s.tabs.len() ==> index_target(s, index) == None::<Seq<char>>,
{
    if s.tabs.len() > 1 {
        let n = s.tabs.len() as int;
        match active_pos(s) {
            Some(p) => {
                lemma_tab_index(s.tabs, s.active_id->0);
                lemma_wrap(p, n);
            },
            None => {
                lemma_wrap(0, n);
            },
        }
    }
}

} // verus!
