//! The visit history: recording visits, titles, removal and search.
use vstd::prelude::*;
use crate::find::{first_where, is_first_where, lemma_first_where, lemma_first_where_unique};
use crate::input::{is_internal, is_newtab_url};
use crate::model::{history_view, AppState, HistoryEntry, HistoryView, StateView, TabView, tabs_view};
use crate::tabs::{has_tab, lemma_tab_index, tab_id_for, tab_index, tab_position, tabs_consistent};
use crate::text::{contains, decimal, has_infix, lowercase, owned, push_decimal, same_text, to_lowercase};

verus! {

broadcast use vstd::seq_lib::group_seq_properties;

/// The id of a history entry: the visit time and the entry count after the visit.
pub open spec fn visit_id(timestamp: u64, count: nat) -> Seq<char> {
    decimal(timestamp as nat) + "-"@ + decimal(count)
}

/// The title a visit is recorded under: the page title, or the address when it has none.
pub open spec fn visit_title(url: Seq<char>, title: Seq<char>) -> Seq<char> {
    if title.len() == 0 {
        url
    } else {
        title
    }
}

/// The newest entry already is `url`, visited less than five seconds before `timestamp`.
pub open spec fn repeat_visit(s: StateView, url: Seq<char>, timestamp: u64) -> bool {
    s.history.len() > 0 && s.history[0].url == url && timestamp - s.history[0].timestamp < 5
}

/// A visit of `url` at `timestamp` is added to the history.
pub open spec fn records_visit(s: StateView, url: Seq<char>, timestamp: u64) -> bool {
    url.len() > 0 && !is_internal(url) && !repeat_visit(s, url, timestamp)
}

/// The entry a recorded visit adds.
pub open spec fn visit_entry(s: StateView, url: Seq<char>, title: Seq<char>, timestamp: u64) -> HistoryView {
    HistoryView {
        id: visit_id(timestamp, s.history.len() + 1),
        url,
        title: visit_title(url, title),
        timestamp,
    }
}

/// `h`, cut to its first `max` entries when longer.
pub open spec fn capped(h: Seq<HistoryView>, max: usize) -> Seq<HistoryView> {
    if h.len() > max {
        h.take(max as int)
    } else {
        h
    }
}

/// The state after a visit of `url` titled `title` at `timestamp`: a recorded visit goes to
/// the front of the history, which is then cut to the configured maximum.
pub open spec fn visited(s: StateView, url: Seq<char>, title: Seq<char>, timestamp: u64) -> StateView {
    if records_visit(s, url, timestamp) {
        StateView {
            history: capped(
                s.history.insert(0, visit_entry(s, url, title, timestamp)),
                s.settings.max_history_items,
            ),
            ..s
        }
    } else {
        s
    }
}

/// The visit can be recorded without an arithmetic overflow: the entry count fits, and the
/// clock did not go back since a visit of the same address at the front of the history.
pub open spec fn visit_in_range(s: StateView, url: Seq<char>, timestamp: u64) -> bool {
    url.len() > 0 && !is_internal(url) ==> {
        &&& s.history.len() < usize::MAX
        &&& s.history.len() > 0 && s.history[0].url == url ==> s.history[0].timestamp <= timestamp
    }
}

/// Entries whose id is not `id`.
pub open spec fn id_is_not(id: Seq<char>) -> spec_fn(HistoryView) -> bool {
    |h: HistoryView| h.id != id
}

/// Entries whose address is `url`.
pub open spec fn url_is(url: Seq<char>) -> spec_fn(HistoryView) -> bool {
    |h: HistoryView| h.url == url
}

/// A search for the lower-cased query `q` finds an entry whose lower-cased address and
/// title are `lower_url` and `lower_title`.
pub open spec fn query_hit(lower_url: Seq<char>, lower_title: Seq<char>, q: Seq<char>) -> bool {
    has_infix(lower_url, q) || has_infix(lower_title, q)
}

/// Entries whose lower-cased address or title contains `q`.
pub open spec fn matches_query(q: Seq<char>) -> spec_fn(HistoryView) -> bool {
    |h: HistoryView| query_hit(lowercase(h.url), lowercase(h.title), q)
}

/// Whether a search for the lower-cased query `q` finds an entry with the lower-cased
/// address `lower_url` and title `lower_title`.
pub fn entry_matches(lower_url: &str, lower_title: &str, q: &str) -> (r: bool)
    ensures
        r == query_hit(lower_url@, lower_title@, q@),
{
    contains(lower_url, q) || contains(lower_title, q)
}

/// The state after retitling the tab `id` to `title`: the first history entry for the tab's
/// address gets the same title.
pub open spec fn retitled(s: StateView, id: Seq<char>, title: Seq<char>) -> StateView {
    match tab_index(s.tabs, id) {
        Some(i) => {
            let url = s.tabs[i].url;
            let tabs = s.tabs.update(i, TabView { title, ..s.tabs[i] });
            match first_where(s.history, url_is(url)) {
                Some(k) => StateView {
                    tabs,
                    history: s.history.update(k, HistoryView { title, ..s.history[k] }),
                    ..s
                },
                None => StateView { tabs, ..s },
            }
        },
        None => s,
    }
}

fn visit_id_text(timestamp: u64, count: u64) -> (r: String)
    ensures
        r@ == visit_id(timestamp, count as nat),
{
    let mut r = String::new();
    push_decimal(&mut r, timestamp);
    let mut r2 = crate::text::join(r.as_str(), "-");
    push_decimal(&mut r2, count);
    r2
}

impl AppState {
    /// Records a visit of `url` titled `title` at `timestamp` (seconds since the epoch);
    /// returns whether the visit was added.
    pub fn record_history_visit(&mut self, url: &str, title: &str, timestamp: u64) -> (recorded: bool)
        requires
            visit_in_range(old(self)@, url@, timestamp),
        ensures
            recorded == records_visit(old(self)@, url@, timestamp),
            final(self)@ == visited(old(self)@, url@, title@, timestamp),
    {
        if url.is_empty() || is_newtab_url(url) {
            return false;
        }
        let count = self.history.len() + 1;
        let id = visit_id_text(timestamp, count as u64);
        let entry_title = if title.is_empty() {
            owned(url)
        } else {
            owned(title)
        };
        let entry = HistoryEntry { id, url: owned(url), title: entry_title, timestamp };
        if self.history.len() > 0 {
            assert(self@.history[0] == self.history@[0]@);
            if same_text(self.history[0].url.as_str(), url) && timestamp - self.history[0].timestamp
                < 5 {
                return false;
            }
        }
        let ghost before = self.history@;
        self.history.insert(0, entry);
        assert(history_view(self.history@) =~= history_view(before).insert(0, entry@));
        let max = self.settings.max_history_items;
        if self.history.len() > max {
            let ghost full = self.history@;
            self.history.truncate(max);
            assert(history_view(self.history@) =~= history_view(full).take(max as int));
        }
        true
    }

    /// Whether `record_history_visit(url, _, timestamp)` can run without an arithmetic overflow.
    pub fn visit_in_range(&self, url: &str, timestamp: u64) -> (r: bool)
        ensures
            r == visit_in_range(self@, url@, timestamp),
    {
        if url.is_empty() || is_newtab_url(url) {
            return true;
        }
        if self.history.len() == usize::MAX {
            return false;
        }
        if self.history.len() > 0 {
            assert(self@.history[0] == self.history@[0]@);
            if same_text(self.history[0].url.as_str(), url) {
                return self.history[0].timestamp <= timestamp;
            }
        }
        true
    }

    /// Forgets every visit.
    pub fn clear_history(&mut self)
        ensures
            final(self)@ == (StateView { history: Seq::empty(), ..old(self)@ }),
    {
        self.history.clear();
        assert(history_view(self.history@) =~= Seq::<HistoryView>::empty());
    }

    /// Forgets the visits whose id is `id`.
    pub fn remove_history_entry(&mut self, id: &str)
        ensures
            final(self)@ == (StateView { history: old(self)@.history.filter(id_is_not(id@)), ..old(self)@ }),
    {
        let ghost hv = self@.history;
        let mut kept: Vec<HistoryEntry> = Vec::new();
        let mut i: usize = 0;
        while i < self.history.len()
            invariant
                hv == history_view(self.history@),
                i <= self.history.len(),
                history_view(kept@) == hv.take(i as int).filter(id_is_not(id@)),
            decreases self.history.len() - i,
        {
            let h = &self.history[i];
            assert(hv.take(i + 1) =~= hv.take(i as int).push(hv[i as int]));
            proof { hv.take(i as int).lemma_filter_push(hv[i as int], id_is_not(id@)); }
            if !same_text(h.id.as_str(), id) {
                let ghost before = kept@;
                kept.push(h.clone());
                assert(history_view(kept@) =~= history_view(before).push(hv[i as int]));
            }
            i += 1;
        }
        assert(hv.take(i as int) =~= hv);
        self.history = kept;
    }

    /// The visits whose lower-cased address or title contains the lower-cased `query`.
    pub fn search_history(&self, query: &str) -> (r: Vec<HistoryEntry>)
        ensures
            history_view(r@) == self@.history.filter(matches_query(lowercase(query@))),
    {
        let q = to_lowercase(query);
        let ghost hv = self@.history;
        let ghost pred = matches_query(q@);
        let mut found: Vec<HistoryEntry> = Vec::new();
        let mut i: usize = 0;
        while i < self.history.len()
            invariant
                hv == history_view(self.history@),
                pred == matches_query(q@),
                i <= self.history.len(),
                history_view(found@) == hv.take(i as int).filter(pred),
            decreases self.history.len() - i,
        {
            let h = &self.history[i];
            assert(hv.take(i + 1) =~= hv.take(i as int).push(hv[i as int]));
            proof { hv.take(i as int).lemma_filter_push(hv[i as int], pred); }
            let lu = to_lowercase(h.url.as_str());
            let lt = to_lowercase(h.title.as_str());
            if entry_matches(lu.as_str(), lt.as_str(), q.as_str()) {
                let ghost before = found@;
                found.push(h.clone());
                assert(history_view(found@) =~= history_view(before).push(hv[i as int]));
            }
            i += 1;
        }
        assert(hv.take(i as int) =~= hv);
        found
    }

    /// Retitles the tab `id` and the first history entry for its address.
    pub fn update_tab_title(&mut self, id: &str, title: &str)
        ensures
            final(self)@ == retitled(old(self)@, id@, title@),
    {
        let ghost s0 = self@;
        match tab_position(&self.tabs, id) {
            Some(i) => {
                assert(s0.tabs[i as int] == self.tabs@[i as int]@);
                let url = self.tabs[i].url.clone();
                let ghost before = self.tabs@;
                let tab = crate::model::TabInfo {
                    id: self.tabs[i].id.clone(),
                    title: owned(title),
                    url: url.clone(),
                };
                self.tabs.set(i, tab);
                assert(tabs_view(self.tabs@) =~= tabs_view(before).update(
                    i as int,
                    TabView { title: title@, ..s0.tabs[i as int] },
                ));
                let ghost hv = self@.history;
                let mut k: usize = 0;
                while k < self.history.len()
                    invariant
                        hv == history_view(self.history@),
                        hv == s0.history,
                        s0 == old(self)@,
                        i < s0.tabs.len(),
                        url@ == s0.tabs[i as int].url,
                        tab_index(s0.tabs, id@) == Some(i as int),
                        self@ == (StateView {
                            tabs: s0.tabs.update(i as int, TabView { title: title@, ..s0.tabs[i as int] }),
                            ..s0
                        }),
                        k <= self.history.len(),
                        forall|j: int| 0 <= j < k ==> !url_is(url@)(hv[j]),
                    decreases self.history.len() - k,
                {
                    assert(hv[k as int] == self.history@[k as int]@);
                    if same_text(self.history[k].url.as_str(), url.as_str()) {
                        proof {
                            assert(is_first_where(hv, url_is(url@), k as int));
                            lemma_first_where_unique(hv, url_is(url@), k as int);
                        }
                        let old_entry = &self.history[k];
                        let entry = HistoryEntry {
                            id: old_entry.id.clone(),
                            url: old_entry.url.clone(),
                            title: owned(title),
                            timestamp: old_entry.timestamp,
                        };
                        self.history.set(k, entry);
                        assert(history_view(self.history@) =~= hv.update(
                            k as int,
                            HistoryView { title: title@, ..hv[k as int] },
                        ));
                        return;
                    }
                    k += 1;
                }
                proof {
                    lemma_first_where(hv, url_is(url@));
                }
            },
            None => {},
        }
    }
}

// ---------------------------------------------------------------------------------------
// Laws
// ---------------------------------------------------------------------------------------

/// A visit never lets the history grow beyond the configured maximum.
pub proof fn law_history_capped(s: StateView, url: Seq<char>, title: Seq<char>, timestamp: u64)
    requires
        s.history.len() <= s.settings.max_history_items,
    ensures
        visited(s, url, title, timestamp).history.len() <= s.settings.max_history_items,
{
}

/// The entries' timestamps never increase from the front of the history to the back.
pub open spec fn newest_first(h: Seq<HistoryView>) -> bool {
    forall|i: int, j: int| 0 <= i < j < h.len() ==> #[trigger] h[i].timestamp >= #[trigger] h[j].timestamp
}

/// A visit at a time no earlier than any recorded visit keeps the history newest-first and
/// within the configured maximum.
pub proof fn law_history_newest_first(s: StateView, url: Seq<char>, title: Seq<char>, timestamp: u64)
    requires
        newest_first(s.history),
        s.history.len() <= s.settings.max_history_items,
        forall|i: int| 0 <= i < s.history.len() ==> #[trigger] s.history[i].timestamp <= timestamp,
    ensures
        newest_first(visited(s, url, title, timestamp).history),
        visited(s, url, title, timestamp).history.len() <= s.settings.max_history_items,
{
    if records_visit(s, url, timestamp) {
        let e = visit_entry(s, url, title, timestamp);
        let h = s.history.insert(0, e);
        assert forall|i: int, j: int| 0 <= i < j < h.len() implies #[trigger] h[i].timestamp >= #[trigger] h[j].timestamp by {
            assert(h[j] == s.history[j - 1]);
            if i > 0 {
                assert(h[i] == s.history[i - 1]);
            }
        }
        let c = capped(h, s.settings.max_history_items);
        assert forall|i: int, j: int| 0 <= i < j < c.len() implies #[trigger] c[i].timestamp >= #[trigger] c[j].timestamp by {
            assert(c[i] == h[i]);
            assert(c[j] == h[j]);
        }
    }
}

/// Empty addresses and the browser's own pages are never recorded.
pub proof fn law_internal_not_recorded(s: StateView, url: Seq<char>, title: Seq<char>, timestamp: u64)
    requires
        url.len() == 0 || is_internal(url),
    ensures
        visited(s, url, title, timestamp) == s,
{
}

/// A recorded visit becomes the newest entry, and the older entries follow in their order;
/// nothing but the history changes.
pub proof fn law_visit_goes_first(s: StateView, url: Seq<char>, title: Seq<char>, timestamp: u64)
    requires
        records_visit(s, url, timestamp),
        s.settings.max_history_items > 0,
    ensures
        ({
            let h = visited(s, url, title, timestamp).history;
            &&& h.len() > 0
            &&& h[0] == visit_entry(s, url, title, timestamp)
            &&& forall|i: int| 1 <= i < h.len() ==> h[i] == s.history[i - 1]
            &&& visited(s, url, title, timestamp) == (StateView { history: h, ..s })
        }),
{
}

/// Visiting the address at the front of the history again within five seconds changes
/// nothing.
pub proof fn law_repeat_visit_ignored(s: StateView, url: Seq<char>, title: Seq<char>, timestamp: u64)
    requires
        repeat_visit(s, url, timestamp),
    ensures
        visited(s, url, title, timestamp) == s,
{
}

/// After removing the entries with id `id`, no entry has that id, and every remaining entry
/// was there before.
pub proof fn law_history_entry_removed(s: StateView, id: Seq<char>)
    ensures
        forall|i: int|
            0 <= i < s.history.filter(id_is_not(id)).len() ==> #[trigger] s.history.filter(
                id_is_not(id),
            )[i].id != id && s.history.contains(s.history.filter(id_is_not(id))[i]),
{
    assert forall|i: int| 0 <= i < s.history.filter(id_is_not(id)).len() implies #[trigger] s.history.filter(
        id_is_not(id),
    )[i].id != id && s.history.contains(s.history.filter(id_is_not(id))[i]) by {
        let f = s.history.filter(id_is_not(id));
        s.history.lemma_filter_pred(id_is_not(id), i);
        assert(f.contains(f[i]));
        s.history.lemma_filter_contains_rev(id_is_not(id), f[i]);
    }
}

/// Every search result matches the query and is a visit from the history.
pub proof fn law_search_results_match(s: StateView, q: Seq<char>)
    ensures
        forall|i: int|
            0 <= i < s.history.filter(matches_query(q)).len() ==> matches_query(q)(
                #[trigger] s.history.filter(matches_query(q))[i],
            ) && s.history.contains(s.history.filter(matches_query(q))[i]),
{
    assert forall|i: int| 0 <= i < s.history.filter(matches_query(q)).len() implies matches_query(q)(
        #[trigger] s.history.filter(matches_query(q))[i],
    ) && s.history.contains(s.history.filter(matches_query(q))[i]) by {
        let f = s.history.filter(matches_query(q));
        s.history.lemma_filter_pred(matches_query(q), i);
        assert(f.contains(f[i]));
        s.history.lemma_filter_contains_rev(matches_query(q), f[i]);
    }
}

/// Retitling a tab keeps the tab strip consistent.
pub proof fn law_retitle_consistent(s: StateView, id: Seq<char>, title: Seq<char>)
    requires
        tabs_consistent(s),
    ensures
        tabs_consistent(retitled(s, id, title)),
{
    lemma_tab_index(s.tabs, id);
    match tab_index(s.tabs, id) {
        Some(i) => {
            let t = retitled(s, id, title).tabs;
            assert(t == s.tabs.update(i, TabView { title, ..s.tabs[i] }));
            assert forall|j: int| 0 <= j < t.len() implies #[trigger] t[j].id == s.tabs[j].id by {}
            assert forall|a: Seq<char>| has_tab(s.tabs, a) implies has_tab(t, a) by {
                let j = choose|j: int| 0 <= j < s.tabs.len() && s.tabs[j].id == a;
                assert(t[j].id == a);
            }
            assert forall|j: int|
                #![trigger t[j]]
                0 <= j < t.len() implies exists|k: nat|
                    #![trigger tab_id_for(k)]
                    1 <= k <= s.next_tab_num && t[j].id == tab_id_for(k) by {
                assert(t[j].id == s.tabs[j].id);
                let k = choose|k: nat| 1 <= k <= s.next_tab_num && s.tabs[j].id == tab_id_for(k);
            }
        },
        None => {},
    }
}

/// The search finds exactly the entries whose lower-cased address or lower-cased title
/// contains the lower-cased query: an entry matching by title alone, or by address alone, is
/// found, and every result matches by one of them.
pub proof fn law_search_by_address_or_title(s: StateView, query: Seq<char>)
    ensures
        forall|i: int|
            0 <= i < s.history.len() && has_infix(lowercase(s.history[i].title), lowercase(query))
                ==> #[trigger] s.history.filter(matches_query(lowercase(query))).contains(s.history[i]),
        forall|i: int|
            0 <= i < s.history.len() && has_infix(lowercase(s.history[i].url), lowercase(query))
                ==> #[trigger] s.history.filter(matches_query(lowercase(query))).contains(s.history[i]),
        forall|k: int|
            0 <= k < s.history.filter(matches_query(lowercase(query))).len() ==> ({
                let h = #[trigger] s.history.filter(matches_query(lowercase(query)))[k];
                &&& s.history.contains(h)
                &&& has_infix(lowercase(h.url), lowercase(query)) || has_infix(lowercase(h.title), lowercase(query))
            }),
{
    let q = lowercase(query);
    assert forall|i: int|
        0 <= i < s.history.len() && has_infix(lowercase(s.history[i].title), q) implies #[trigger] s.history.filter(
        matches_query(q),
    ).contains(s.history[i]) by {
        s.history.lemma_filter_contains(matches_query(q), i);
    }
    assert forall|i: int|
        0 <= i < s.history.len() && has_infix(lowercase(s.history[i].url), q) implies #[trigger] s.history.filter(
        matches_query(q),
    ).contains(s.history[i]) by {
        s.history.lemma_filter_contains(matches_query(q), i);
    }
    assert forall|k: int| 0 <= k < s.history.filter(matches_query(q)).len() implies ({
        let h = #[trigger] s.history.filter(matches_query(q))[k];
        &&& s.history.contains(h)
        &&& has_infix(lowercase(h.url), q) || has_infix(lowercase(h.title), q)
    }) by {
        let f = s.history.filter(matches_query(q));
        s.history.lemma_filter_pred(matches_query(q), k);
        assert(f.contains(f[k]));
        s.history.lemma_filter_contains_rev(matches_query(q), f[k]);
    }
}

/// Retitling an open tab gives it the new title whether or not the history holds its
/// address; every other tab, and that tab's id and address, stay as they were. The first
/// history entry for its address, if any, takes the title; the other entries are untouched.
/// Retitling a tab that is not open changes nothing.
pub proof fn law_retitle_sets_tab_title(s: StateView, id: Seq<char>, title: Seq<char>)
    ensures
        match tab_index(s.tabs, id) {
            Some(i) => {
                let r = retitled(s, id, title);
                &&& r.tabs.len() == s.tabs.len()
                &&& r.tabs[i].title == title
                &&& r.tabs[i].id == s.tabs[i].id
                &&& r.tabs[i].url == s.tabs[i].url
                &&& forall|j: int| 0 <= j < s.tabs.len() && j != i ==> #[trigger] r.tabs[j] == s.tabs[j]
                &&& r.history.len() == s.history.len()
                &&& forall|k: int|
                    0 <= k < s.history.len() ==> (#[trigger] r.history[k]).id == s.history[k].id
                        && r.history[k].url == s.history[k].url
                        && r.history[k].timestamp == s.history[k].timestamp
                &&& forall|k: int|
                    0 <= k < s.history.len() && s.history[k].url == s.tabs[i].url && (forall|m: int|
                        0 <= m < k ==> s.history[m].url != s.tabs[i].url) ==> (#[trigger] r.history[k]).title
                        == title
                &&& forall|k: int|
                    0 <= k < s.history.len() && s.history[k].url != s.tabs[i].url ==> #[trigger] r.history[k]
                        == s.history[k]
                &&& r.bookmarks == s.bookmarks && r.active_id == s.active_id
            },
            None => retitled(s, id, title) == s,
        },
{
    lemma_tab_index(s.tabs, id);
    match tab_index(s.tabs, id) {
        Some(i) => {
            let url = s.tabs[i].url;
            lemma_first_where(s.history, url_is(url));
            match first_where(s.history, url_is(url)) {
                Some(k0) => {
                    assert forall|k: int|
                        0 <= k < s.history.len() && s.history[k].url == url && (forall|m: int|
                            0 <= m < k ==> s.history[m].url != url) implies (#[trigger] retitled(
                        s,
                        id,
                        title,
                    ).history[k]).title == title by {
                        if k < k0 {
                            assert(url_is(url)(s.history[k]));
                        } else if k0 < k {
                            assert(s.history[k0].url == url);
                        }
                    }
                },
                None => {
                    assert forall|k: int|
                        0 <= k < s.history.len() && s.history[k].url == url && (forall|m: int|
                            0 <= m < k ==> s.history[m].url != url) implies (#[trigger] retitled(
                        s,
                        id,
                        title,
                    ).history[k]).title == title by {
                        assert(url_is(url)(s.history[k]));
                    }
                },
            }
        },
        None => {},
    }
}

} // verus!
