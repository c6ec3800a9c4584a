//! Bookmarks: adding, removing, looking up and toggling the active tab's bookmark.
use vstd::prelude::*;
use crate::find::{any_where, first_where, is_first_where, lemma_first_where, lemma_first_where_unique};
use crate::input::{is_internal, is_newtab_url};
use crate::model::{bookmarks_view, opt_text, AppState, BookmarkEntry, BookmarkView, StateView};
use crate::tabs::{active_pos};
use crate::text::{decimal, owned, push_decimal, same_text};

verus! {

broadcast use vstd::seq_lib::group_seq_properties;

/// Bookmarks whose address is `url`.
pub open spec fn bookmark_url_is(url: Seq<char>) -> spec_fn(BookmarkView) -> bool {
    |b: BookmarkView| b.url == url
}

/// Bookmarks that `remove_bookmark(key)` keeps: neither their id nor their address is `key`.
pub open spec fn not_keyed(key: Seq<char>) -> spec_fn(BookmarkView) -> bool {
    |b: BookmarkView| b.id != key && b.url != key
}

/// The bookmark `add_bookmark` creates at `timestamp`.
pub open spec fn new_bookmark(
    url: Seq<char>,
    title: Seq<char>,
    folder: Option<Seq<char>>,
    timestamp: u64,
) -> BookmarkView {
    BookmarkView {
        id: "bm-"@ + decimal(timestamp as nat),
        url,
        title: if title.len() == 0 {
            url
        } else {
            title
        },
        folder,
        created_at: timestamp,
    }
}

/// An address can be bookmarked when it is neither empty nor an internal page.
pub open spec fn bookmarkable(url: Seq<char>) -> bool {
    url.len() > 0 && !is_internal(url)
}

/// What adding a bookmark gives: the refusal, the bookmark already kept for the address, or
/// the new bookmark; and the bookmarks afterwards.
pub open spec fn added(
    s: StateView,
    url: Seq<char>,
    title: Seq<char>,
    folder: Option<Seq<char>>,
    timestamp: u64,
) -> (Result<BookmarkView, Seq<char>>, StateView) {
    if !bookmarkable(url) {
        (Err("Cannot bookmark empty or newtab URL"@), s)
    } else {
        match first_where(s.bookmarks, bookmark_url_is(url)) {
            Some(k) => (Ok(s.bookmarks[k]), s),
            None => {
                let b = new_bookmark(url, title, folder, timestamp);
                (Ok(b), StateView { bookmarks: s.bookmarks.push(b), ..s })
            },
        }
    }
}

/// The bookmarks after `remove_bookmark(key)`.
pub open spec fn removed(s: StateView, key: Seq<char>) -> StateView {
    StateView { bookmarks: s.bookmarks.filter(not_keyed(key)), ..s }
}

/// What toggling the active tab's bookmark gives, and the state afterwards: "No active tab"
/// without an open active tab; `false` for an address that cannot be bookmarked; `false`
/// after removing its bookmark; `true` after adding one.
pub open spec fn toggled(s: StateView, timestamp: u64) -> (Result<bool, Seq<char>>, StateView) {
    match active_pos(s) {
        None => (Err("No active tab"@), s),
        Some(i) => {
            let url = s.tabs[i].url;
            if !bookmarkable(url) {
                (Ok(false), s)
            } else if any_where(s.bookmarks, bookmark_url_is(url)) {
                (Ok(false), removed(s, url))
            } else {
                (Ok(true), added(s, url, s.tabs[i].title, None, timestamp).1)
            }
        },
    }
}

fn bookmark_id_text(timestamp: u64) -> (r: String)
    ensures
        r@ == "bm-"@ + decimal(timestamp as nat),
{
    let mut r = owned("bm-");
    push_decimal(&mut r, timestamp);
    r
}

fn find_bookmark(bookmarks: &Vec<BookmarkEntry>, url: &str) -> (r: Option<usize>)
    ensures
        match r {
            Some(k) => first_where(bookmarks_view(bookmarks@), bookmark_url_is(url@)) == Some(
                k as int,
            ) && k < bookmarks.len(),
            None => first_where(bookmarks_view(bookmarks@), bookmark_url_is(url@)) == None::<int>,
        },
{
    let ghost bv = bookmarks_view(bookmarks@);
    let mut k: usize = 0;
    while k < bookmarks.len()
        invariant
            bv == bookmarks_view(bookmarks@),
            k <= bookmarks.len(),
            forall|j: int| 0 <= j < k ==> !bookmark_url_is(url@)(bv[j]),
        decreases bookmarks.len() - k,
    {
        assert(bv[k as int] == bookmarks@[k as int]@);
        if same_text(bookmarks[k].url.as_str(), url) {
            proof {
                assert(is_first_where(bv, bookmark_url_is(url@), k as int));
                lemma_first_where_unique(bv, bookmark_url_is(url@), k as int);
            }
            return Some(k);
        }
        k += 1;
    }
    proof {
        lemma_first_where(bv, bookmark_url_is(url@));
    }
    None
}

impl AppState {
    /// Bookmarks `url` under `title` (the address when empty) in `folder`, made at
    /// `timestamp`; an address already bookmarked gives back its bookmark unchanged.
    pub fn add_bookmark(&mut self, url: String, title: String, folder: Option<String>, timestamp: u64) -> (r:
        Result<BookmarkEntry, String>)
        ensures
            final(self)@ == added(old(self)@, url@, title@, opt_text(folder), timestamp).1,
            match added(old(self)@, url@, title@, opt_text(folder), timestamp).0 {
                Ok(b) => r matches Ok(e) && e@ == b,
                Err(m) => r matches Err(e) && e@ == m,
            },
    {
        if url.as_str().is_empty() || is_newtab_url(url.as_str()) {
            return Err(owned("Cannot bookmark empty or newtab URL"));
        }
        let entry = BookmarkEntry {
            id: bookmark_id_text(timestamp),
            url: url.clone(),
            title: if title.as_str().is_empty() {
                url
            } else {
                title
            },
            folder,
            created_at: timestamp,
        };
        match find_bookmark(&self.bookmarks, entry.url.as_str()) {
            Some(k) => {
                assert(self@.bookmarks[k as int] == self.bookmarks@[k as int]@);
                return Ok(self.bookmarks[k].clone());
            },
            None => {},
        }
        let ghost before = self.bookmarks@;
        self.bookmarks.push(entry.clone());
        assert(bookmarks_view(self.bookmarks@) =~= bookmarks_view(before).push(entry@));
        Ok(entry)
    }

    /// Removes the bookmarks whose id or address is `key`.
    pub fn remove_bookmark(&mut self, key: &str)
        ensures
            final(self)@ == removed(old(self)@, key@),
    {
        let ghost bv = self@.bookmarks;
        let mut kept: Vec<BookmarkEntry> = Vec::new();
        let mut i: usize = 0;
        while i < self.bookmarks.len()
            invariant
                bv == bookmarks_view(self.bookmarks@),
                i <= self.bookmarks.len(),
                bookmarks_view(kept@) == bv.take(i as int).filter(not_keyed(key@)),
            decreases self.bookmarks.len() - i,
        {
            let b = &self.bookmarks[i];
            assert(bv.take(i + 1) =~= bv.take(i as int).push(bv[i as int]));
            proof {
                bv.take(i as int).lemma_filter_push(bv[i as int], not_keyed(key@));
            }
            if !same_text(b.id.as_str(), key) && !same_text(b.url.as_str(), key) {
                let ghost before = kept@;
                kept.push(b.clone());
                assert(bookmarks_view(kept@) =~= bookmarks_view(before).push(bv[i as int]));
            }
            i += 1;
        }
        assert(bv.take(i as int) =~= bv);
        self.bookmarks = kept;
    }

    /// Whether some bookmark has the address `url`.
    pub fn is_bookmarked(&self, url: &str) -> (r: bool)
        ensures
            r == any_where(self@.bookmarks, bookmark_url_is(url@)),
    {
        proof {
            lemma_first_where(self@.bookmarks, bookmark_url_is(url@));
        }
        find_bookmark(&self.bookmarks, url).is_some()
    }

    /// Bookmarks the active tab, or removes its bookmark; returns whether it is bookmarked now.
    pub fn toggle_bookmark_active_tab(&mut self, timestamp: u64) -> (r: Result<bool, String>)
        ensures
            final(self)@ == toggled(old(self)@, timestamp).1,
            match toggled(old(self)@, timestamp).0 {
                Ok(b) => r == Ok::<bool, String>(b),
                Err(m) => r matches Err(e) && e@ == m,
            },
    {
        let (url, title) = match self.active_index() {
            Some(i) => {
                assert(self@.tabs[i as int] == self.tabs@[i as int]@);
                (self.tabs[i].url.clone(), self.tabs[i].title.clone())
            },
            None => {
                return Err(owned("No active tab"));
            },
        };
        if url.as_str().is_empty() || is_newtab_url(url.as_str()) {
            return Ok(false);
        }
        if self.is_bookmarked(url.as_str()) {
            self.remove_bookmark(url.as_str());
            Ok(false)
        } else {
            let _ = self.add_bookmark(url, title, None, timestamp);
            Ok(true)
        }
    }
}

// ---------------------------------------------------------------------------------------
// Laws
// ---------------------------------------------------------------------------------------

/// No two bookmarks share an address.
pub open spec fn bookmark_urls_distinct(s: StateView) -> bool {
    forall|i: int, j: int|
        0 <= i < j < s.bookmarks.len() ==> #[trigger] s.bookmarks[i].url != #[trigger] s.bookmarks[j].url
}

proof fn lemma_filter_keeps_all<T>(xs: Seq<T>, p: spec_fn(T) -> bool)
    requires
        forall|i: int| 0 <= i < xs.len() ==> p(#[trigger] xs[i]),
    ensures
        xs.filter(p) == xs,
    decreases xs.len(),
{
    reveal(Seq::filter);
    if xs.len() > 0 {
        lemma_filter_keeps_all(xs.drop_last(), p);
        assert(xs.drop_last().push(xs.last()) =~= xs);
    }
}

proof fn lemma_filter_subsequence<T>(xs: Seq<T>, p: spec_fn(T) -> bool, q: spec_fn(T, T) -> bool)
    requires
        forall|i: int, j: int| 0 <= i < j < xs.len() ==> q(#[trigger] xs[i], #[trigger] xs[j]),
    ensures
        forall|i: int, j: int|
            0 <= i < j < xs.filter(p).len() ==> q(#[trigger] xs.filter(p)[i], #[trigger] xs.filter(p)[j]),
    decreases xs.len(),
{
    reveal(Seq::filter);
    if xs.len() > 0 {
        let rest = xs.drop_last();
        lemma_filter_subsequence(rest, p, q);
        let fr = rest.filter(p);
        if p(xs.last()) {
            assert forall|j: int| 0 <= j < fr.len() implies q(#[trigger] fr[j], xs.last()) by {
                let f = fr[j];
                assert(fr.contains(f));
                rest.lemma_filter_contains_rev(p, f);
                let k = choose|k: int| 0 <= k < rest.len() && rest[k] == f;
                assert(xs[k] == f);
                assert(q(xs[k], xs[xs.len() - 1]));
            }
            assert forall|i: int, j: int|
                0 <= i < j < xs.filter(p).len() implies q(#[trigger] xs.filter(p)[i], #[trigger] xs.filter(p)[j]) by {
                assert(xs.filter(p) == fr.push(xs.last()));
                if j == fr.len() {
                    assert(xs.filter(p)[i] == fr[i]);
                } else {
                    assert(xs.filter(p)[i] == fr[i]);
                    assert(xs.filter(p)[j] == fr[j]);
                }
            }
        }
    }
}

/// Adding a bookmark keeps the addresses distinct, and afterwards the address is bookmarked.
pub proof fn law_add_bookmark(
    s: StateView,
    url: Seq<char>,
    title: Seq<char>,
    folder: Option<Seq<char>>,
    timestamp: u64,
)
    requires
        bookmark_urls_distinct(s),
    ensures
        bookmark_urls_distinct(added(s, url, title, folder, timestamp).1),
        bookmarkable(url) ==> any_where(added(s, url, title, folder, timestamp).1.bookmarks, bookmark_url_is(url)),
        bookmarkable(url) ==> (added(s, url, title, folder, timestamp).0 matches Ok(b) && b.url == url),
{
    lemma_first_where(s.bookmarks, bookmark_url_is(url));
    if bookmarkable(url) {
        match first_where(s.bookmarks, bookmark_url_is(url)) {
            Some(k) => {},
            None => {
                let t = added(s, url, title, folder, timestamp).1.bookmarks;
                assert(t[s.bookmarks.len() as int].url == url);
                assert forall|i: int, j: int| 0 <= i < j < t.len() implies #[trigger] t[i].url != #[trigger] t[j].url by {
                    if j == s.bookmarks.len() {
                        assert(t[i] == s.bookmarks[i]);
                        assert(!bookmark_url_is(url)(s.bookmarks[i]));
                    } else {
                        assert(t[i] == s.bookmarks[i]);
                        assert(t[j] == s.bookmarks[j]);
                    }
                }
            },
        }
    }
}

/// Adding the same address twice changes nothing the second time: the bookmark kept for it is
/// given back.
pub proof fn law_add_bookmark_idempotent(
    s: StateView,
    url: Seq<char>,
    title: Seq<char>,
    folder: Option<Seq<char>>,
    timestamp: u64,
    title2: Seq<char>,
    folder2: Option<Seq<char>>,
    timestamp2: u64,
)
    requires
        bookmarkable(url),
    ensures
        ({
            let (r1, s1) = added(s, url, title, folder, timestamp);
            let (r2, s2) = added(s1, url, title2, folder2, timestamp2);
            s2 == s1 && r2 == r1
        }),
{
    lemma_first_where(s.bookmarks, bookmark_url_is(url));
    let (r1, s1) = added(s, url, title, folder, timestamp);
    match first_where(s.bookmarks, bookmark_url_is(url)) {
        Some(k) => {},
        None => {
            let n = s.bookmarks.len() as int;
            assert forall|j: int| 0 <= j < n implies !bookmark_url_is(url)(s1.bookmarks[j]) by {
                assert(s1.bookmarks[j] == s.bookmarks[j]);
            }
            assert(is_first_where(s1.bookmarks, bookmark_url_is(url), n));
            lemma_first_where_unique(s1.bookmarks, bookmark_url_is(url), n);
        },
    }
}

/// After removing by an address, that address is no longer bookmarked, and the remaining
/// addresses stay distinct.
pub proof fn law_remove_bookmark(s: StateView, key: Seq<char>)
    requires
        bookmark_urls_distinct(s),
    ensures
        !any_where(removed(s, key).bookmarks, bookmark_url_is(key)),
        bookmark_urls_distinct(removed(s, key)),
{
    let f = s.bookmarks.filter(not_keyed(key));
    assert forall|i: int| 0 <= i < f.len() implies !bookmark_url_is(key)(#[trigger] f[i]) by {
        s.bookmarks.lemma_filter_pred(not_keyed(key), i);
    }
    lemma_filter_subsequence(
        s.bookmarks,
        not_keyed(key),
        |a: BookmarkView, b: BookmarkView| a.url != b.url,
    );
}

/// Toggling keeps the bookmark addresses distinct.
pub proof fn law_toggle_keeps_distinct(s: StateView, timestamp: u64)
    requires
        bookmark_urls_distinct(s),
    ensures
        bookmark_urls_distinct(toggled(s, timestamp).1),
{
    match active_pos(s) {
        Some(i) => {
            let url = s.tabs[i].url;
            law_remove_bookmark(s, url);
            law_add_bookmark(s, url, s.tabs[i].title, None, timestamp);
        },
        None => {},
    }
}

/// Toggling the active tab's bookmark twice, starting from an address that is not bookmarked
/// (and is no bookmark's id), bookmarks it and then leaves the bookmarks as they were.
pub proof fn law_toggle_twice(s: StateView, t1: u64, t2: u64)
    requires
        active_pos(s) is Some,
        bookmarkable(s.tabs[active_pos(s)->0].url),
        forall|j: int|
            0 <= j < s.bookmarks.len() ==> not_keyed(s.tabs[active_pos(s)->0].url)(#[trigger] s.bookmarks[j]),
    ensures
        toggled(s, t1).0 == Ok::<bool, Seq<char>>(true),
        toggled(toggled(s, t1).1, t2).0 == Ok::<bool, Seq<char>>(false),
        toggled(toggled(s, t1).1, t2).1 == s,
{
    let i = active_pos(s)->0;
    let url = s.tabs[i].url;
    assert(!any_where(s.bookmarks, bookmark_url_is(url))) by {
        if any_where(s.bookmarks, bookmark_url_is(url)) {
            let j = choose|j: int| 0 <= j < s.bookmarks.len() && bookmark_url_is(url)(s.bookmarks[j]);
            assert(not_keyed(url)(s.bookmarks[j]));
        }
    }
    lemma_first_where(s.bookmarks, bookmark_url_is(url));
    let b = new_bookmark(url, s.tabs[i].title, None, t1);
    let s1 = toggled(s, t1).1;
    assert(s1 == StateView { bookmarks: s.bookmarks.push(b), ..s });
    assert(active_pos(s1) == active_pos(s));
    let n = s.bookmarks.len() as int;
    assert(s1.bookmarks[n] == b);
    assert(any_where(s1.bookmarks, bookmark_url_is(url)));
    s.bookmarks.lemma_filter_push(b, not_keyed(url));
    lemma_filter_keeps_all(s.bookmarks, not_keyed(url));
    assert(removed(s1, url).bookmarks == s.bookmarks);
}

/// A new bookmark keeps the address and folder, is titled with the given title or, when
/// that is empty, the address, has the id "bm-" and the creation time, and goes to the end;
/// an address already bookmarked gives back the first bookmark for it; an empty or internal
/// address is refused with "Cannot bookmark empty or newtab URL".
pub proof fn law_new_bookmark_fields(
    s: StateView,
    url: Seq<char>,
    title: Seq<char>,
    folder: Option<Seq<char>>,
    timestamp: u64,
)
    ensures
        (url.len() == 0 || is_internal(url)) ==> added(s, url, title, folder, timestamp)
            == (Err::<BookmarkView, Seq<char>>("Cannot bookmark empty or newtab URL"@), s),
        url.len() > 0 && !is_internal(url) && !any_where(s.bookmarks, bookmark_url_is(url)) ==> ({
            let (r, t) = added(s, url, title, folder, timestamp);
            &&& t.bookmarks.len() == s.bookmarks.len() + 1
            &&& t.bookmarks.drop_last() == s.bookmarks
            &&& r == Ok::<BookmarkView, Seq<char>>(t.bookmarks.last())
            &&& t.bookmarks.last().url == url
            &&& t.bookmarks.last().folder == folder
            &&& t.bookmarks.last().created_at == timestamp
            &&& t.bookmarks.last().id == "bm-"@ + decimal(timestamp as nat)
            &&& title.len() == 0 ==> t.bookmarks.last().title == url
            &&& title.len() > 0 ==> t.bookmarks.last().title == title
        }),
        url.len() > 0 && !is_internal(url) && any_where(s.bookmarks, bookmark_url_is(url)) ==> ({
            let (r, t) = added(s, url, title, folder, timestamp);
            &&& t == s
            &&& r matches Ok(b) && b.url == url && s.bookmarks.contains(b)
        }),
{
    lemma_first_where(s.bookmarks, bookmark_url_is(url));
    let (r, t) = added(s, url, title, folder, timestamp);
    if url.len() > 0 && !is_internal(url) && !any_where(s.bookmarks, bookmark_url_is(url)) {
        assert(t.bookmarks.drop_last() =~= s.bookmarks);
    }
}

} // verus!
