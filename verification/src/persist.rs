//! The browser's persisted data: history, bookmarks, downloads, settings,
//! the last session, page favicons and the content-blocking allowlist,
//! with every change the browser makes to them.
use vstd::prelude::*;
use crate::text::{chars_eq, chars_eq_str, chars_of, push_str};
use crate::urls::{normalize_homepage_url, normalized_homepage, BLANK_URL, HOME_URL};

verus! {

/// Most history entries kept; the oldest are dropped beyond this.
pub const HISTORY_LIMIT: usize = 2000;

/// Most download entries kept; the oldest are dropped beyond this.
pub const DOWNLOAD_LIMIT: usize = 500;

/// The last `n` elements of `s` (all of `s` when it is no longer).
pub open spec fn keep_last<A>(s: Seq<A>, n: nat) -> Seq<A> {
    if s.len() > n {
        s.skip(s.len() - n)
    } else {
        s
    }
}

/// Drops elements from the front of `v` until at most `limit` are left.
pub fn drop_oldest<T>(v: &mut Vec<T>, limit: usize)
    ensures
        final(v)@ == keep_last(old(v)@, limit as nat),
{
    let len = v.len();
    if len > limit {
        let excess = len - limit;
        let tail = v.split_off(excess);
        *v = tail;
    }
}

/// One visited page.
pub struct HistoryEntry {
    pub url: String,
    pub title: String,
    /// Unix time of the visit, in milliseconds.
    pub visited_at: i64,
}

/// A visited page as the history list shows it, with its favicon.
pub struct HistoryEntryView {
    pub url: String,
    pub title: String,
    pub visited_at: i64,
    pub favicon: Option<String>,
}

/// A bookmarked page.
pub struct Bookmark {
    pub url: String,
    pub title: String,
}

/// A bookmark as the bookmarks list shows it, with its favicon.
pub struct BookmarkView {
    pub url: String,
    pub title: String,
    pub favicon: Option<String>,
}

/// One finished download.
pub struct DownloadEntry {
    pub url: String,
    pub file_name: String,
    pub path: String,
    /// Unix time of completion, in milliseconds.
    pub completed_at: i64,
    pub success: bool,
}

/// One tab of a saved session.
pub struct SessionTab {
    pub url: String,
}

/// The tabs open when the session was last saved, and which was active.
pub struct SessionState {
    pub tabs: Vec<SessionTab>,
    pub active_index: usize,
}

/// User preferences edited from `kite://settings`.
pub struct Settings {
    /// `google`, `bing` or `duckduckgo`.
    pub search_engine: String,
    /// `home`, `custom`, `blank` or `restore`.
    pub homepage_mode: String,
    pub homepage_url: String,
    pub downloads_dir: Option<String>,
    pub content_blocking_enabled: bool,
}

/// Page URL to favicon `data:` URL, each page at most once.
pub struct FaviconMap {
    entries: Vec<(String, String)>,
}

/// Everything the browser keeps on disk between runs (apart from the
/// password vault).
pub struct PersistedData {
    pub history: Vec<HistoryEntry>,
    pub bookmarks: Vec<Bookmark>,
    pub downloads: Vec<DownloadEntry>,
    pub settings: Settings,
    pub session: SessionState,
    pub favicons: FaviconMap,
    /// Hosts for which content blocking is turned off.
    pub content_blocking_allowlist: Vec<String>,
    /// Unix ms of the last successful blocklist refresh.
    pub last_blocklist_refresh: Option<i64>,
    /// Entry count of the blocklist as of that refresh.
    pub blocklist_entry_count: Option<usize>,
}

/// Copies a string (`String::clone`).
pub fn copy_string(s: &String) -> (r: String)
    ensures
        r@ == s@,
{
    s.clone()
}

/// Copies an optional string.
pub fn copy_opt_string(s: &Option<String>) -> (r: Option<String>)
    ensures
        match (r, s) {
            (Some(a), Some(b)) => a@ == b@,
            (None, None) => true,
            _ => false,
        },
{
    match s {
        Some(x) => Some(x.clone()),
        None => None,
    }
}

/// The search engine used until the user picks another.
pub fn default_search_engine() -> (r: String)
    ensures
        r@ == "google"@,
{
    let mut s = String::new();
    push_str(&mut s, "google");
    s
}

/// The startup behaviour used until the user picks another.
pub fn default_homepage_mode() -> (r: String)
    ensures
        r@ == "home"@,
{
    let mut s = String::new();
    push_str(&mut s, "home");
    s
}

/// Content blocking is on until the user turns it off.
pub fn default_content_blocking_enabled() -> (r: bool)
    ensures
        r,
{
    true
}

impl Settings {
    /// The settings of a fresh install.
    pub fn new() -> (s: Self)
        ensures
            s.search_engine@ == "google"@,
            s.homepage_mode@ == "home"@,
            s.homepage_url@ == Seq::<char>::empty(),
            s.downloads_dir is None,
            s.content_blocking_enabled,
    {
        Settings {
            search_engine: default_search_engine(),
            homepage_mode: default_homepage_mode(),
            homepage_url: String::new(),
            downloads_dir: None,
            content_blocking_enabled: default_content_blocking_enabled(),
        }
    }
}

impl View for FaviconMap {
    type V = Map<Seq<char>, Seq<char>>;

    /// The pages and their favicons.
    closed spec fn view(&self) -> Map<Seq<char>, Seq<char>> {
        Map::new(
            |k: Seq<char>| exists|i: int| 0 <= i < self.entries@.len() && self.entries@[i].0@ == k,
            |k: Seq<char>|
                self.entries@[choose|i: int| 0 <= i < self.entries@.len() && self.entries@[i].0@ == k].1@,
        )
    }
}

impl FaviconMap {
    /// Each page appears once.
    pub closed spec fn wf(&self) -> bool {
        forall|i: int, j: int|
            0 <= i < j < self.entries@.len() ==> self.entries@[i].0@ != self.entries@[j].0@
    }

    /// No favicons.
    pub fn new() -> (m: Self)
        ensures
            m.wf(),
            m@ == Map::<Seq<char>, Seq<char>>::empty(),
    {
        let m = FaviconMap { entries: Vec::new() };
        assert(m@ =~= Map::<Seq<char>, Seq<char>>::empty());
        m
    }

    fn find(&self, page: &[char]) -> (r: Option<usize>)
        requires
            self.wf(),
        ensures
            match r {
                Some(i) => i < self.entries@.len() && self.entries@[i as int].0@ == page@,
                None => !self@.contains_key(page@),
            },
    {
        let mut i: usize = 0;
        while i < self.entries.len()
            invariant
                i <= self.entries@.len(),
                forall|j: int| 0 <= j < i ==> self.entries@[j].0@ != page@,
            decreases self.entries@.len() - i,
        {
            if chars_eq(chars_of(self.entries[i].0.as_str()).as_slice(), page) {
                return Some(i);
            }
            i = i + 1;
        }
        None
    }

    /// The favicon stored for `page`, if any.
    pub fn get(&self, page: &str) -> (r: Option<String>)
        requires
            self.wf(),
        ensures
            match r {
                Some(v) => self@.contains_key(page@) && self@[page@] == v@,
                None => !self@.contains_key(page@),
            },
    {
        match self.find(chars_of(page).as_slice()) {
            Some(i) => {
                proof {
                    let k = page@;
                    assert(self@.contains_key(k));
                    let c = choose|c: int| 0 <= c < self.entries@.len() && self.entries@[c].0@ == k;
                    assert(c == i);
                }
                Some(self.entries[i].1.clone())
            },
            None => None,
        }
    }

    /// Every page with its favicon, each page once.
    pub fn pairs(&self) -> (r: Vec<(String, String)>)
        requires
            self.wf(),
        ensures
            forall|i: int|
                0 <= i < r@.len() ==> self@.contains_key((#[trigger] r@[i]).0@) && self@[r@[i].0@]
                    == r@[i].1@,
            forall|k: Seq<char>| #[trigger] self@.contains_key(k) ==> exists|i: int| 0 <= i < r@.len() && r@[i].0@ == k,
            forall|i: int, j: int| 0 <= i < j < r@.len() ==> r@[i].0@ != r@[j].0@,
    {
        let mut out: Vec<(String, String)> = Vec::new();
        let mut i: usize = 0;
        while i < self.entries.len()
            invariant
                self.wf(),
                i <= self.entries@.len(),
                out@.len() == i,
                forall|m: int| 0 <= m < i ==> (#[trigger] out@[m]).0@ == self.entries@[m].0@ && out@[m].1@ == self.entries@[m].1@,
            decreases self.entries@.len() - i,
        {
            out.push((self.entries[i].0.clone(), self.entries[i].1.clone()));
            i = i + 1;
        }
        proof {
            assert forall|m: int| 0 <= m < out@.len() implies self@.contains_key((#[trigger] out@[m]).0@) && self@[out@[m].0@] == out@[m].1@ by {
                let k = out@[m].0@;
                assert(self.entries@[m].0@ == k);
                let c = choose|c: int| 0 <= c < self.entries@.len() && self.entries@[c].0@ == k;
                if c != m {
                    if c < m {
                        assert(self.entries@[c].0@ != self.entries@[m].0@);
                    } else {
                        assert(self.entries@[m].0@ != self.entries@[c].0@);
                    }
                }
            }
            assert forall|k: Seq<char>| #[trigger] self@.contains_key(k) implies exists|i: int| 0 <= i < out@.len() && out@[i].0@ == k by {
                let c = choose|c: int| 0 <= c < self.entries@.len() && self.entries@[c].0@ == k;
                assert(out@[c].0@ == k);
            }
            assert forall|a: int, b: int| 0 <= a < b < out@.len() implies out@[a].0@ != out@[b].0@ by {
                assert(self.entries@[a].0@ != self.entries@[b].0@);
            }
        }
        out
    }

    /// Stores `favicon` for `page`, replacing any earlier one.
    pub fn insert(&mut self, page: String, favicon: String)
        requires
            old(self).wf(),
        ensures
            final(self).wf(),
            final(self)@ == old(self)@.insert(page@, favicon@),
    {
        let ghost old_view = self@;
        let ghost k = page@;
        let ghost v = favicon@;
        match self.find(chars_of(page.as_str()).as_slice()) {
            Some(i) => {
                let ghost old_entries = self.entries@;
                self.entries.set(i, (page, favicon));
                proof {
                    assert forall|a: int, b: int|
                        0 <= a < b < self.entries@.len() implies self.entries@[a].0@
                        != self.entries@[b].0@ by {
                        if a != i && b != i {
                            assert(old_entries[a].0@ != old_entries[b].0@);
                        } else if a == i {
                            assert(old_entries[a].0@ != old_entries[b].0@);
                        } else {
                            assert(old_entries[a].0@ != old_entries[b].0@);
                        }
                    }
                    assert(self@ =~= old_view.insert(k, v)) by {
                        assert forall|x: Seq<char>| #[trigger] self@.contains_key(x) <==> old_view.insert(k, v).contains_key(x) by {
                            if self@.contains_key(x) {
                                let c = choose|c: int| 0 <= c < self.entries@.len() && self.entries@[c].0@ == x;
                                if c != i {
                                    assert(old_entries[c].0@ == x);
                                }
                            }
                            if old_view.contains_key(x) {
                                let c = choose|c: int| 0 <= c < old_entries.len() && old_entries[c].0@ == x;
                                if c != i {
                                    assert(self.entries@[c].0@ == x);
                                }
                            }
                            if x == k {
                                assert(self.entries@[i as int].0@ == x);
                            }
                        }
                        assert forall|x: Seq<char>| #[trigger] self@.contains_key(x) implies self@[x] == old_view.insert(k, v)[x] by {
                            let c = choose|c: int| 0 <= c < self.entries@.len() && self.entries@[c].0@ == x;
                            if x == k {
                                assert(c == i);
                            } else {
                                assert(c != i);
                                assert(old_entries[c].0@ == x);
                                let d = choose|d: int| 0 <= d < old_entries.len() && old_entries[d].0@ == x;
                                assert(d == c);
                            }
                        }
                    }
                }
            },
            None => {
                let ghost old_entries = self.entries@;
                self.entries.push((page, favicon));
                proof {
                    let n = old_entries.len();
                    assert forall|a: int, b: int|
                        0 <= a < b < self.entries@.len() implies self.entries@[a].0@
                        != self.entries@[b].0@ by {
                        if b < n {
                            assert(old_entries[a].0@ != old_entries[b].0@);
                        } else {
                            assert(self.entries@[a] == old_entries[a]);
                            if old_entries[a].0@ == k {
                                assert(old_view.contains_key(k));
                            }
                        }
                    }
                    assert(self@ =~= old_view.insert(k, v)) by {
                        assert forall|x: Seq<char>| #[trigger] self@.contains_key(x) <==> old_view.insert(k, v).contains_key(x) by {
                            if self@.contains_key(x) {
                                let c = choose|c: int| 0 <= c < self.entries@.len() && self.entries@[c].0@ == x;
                                if c < n {
                                    assert(old_entries[c].0@ == x);
                                }
                            }
                            if old_view.contains_key(x) {
                                let c = choose|c: int| 0 <= c < old_entries.len() && old_entries[c].0@ == x;
                                assert(self.entries@[c].0@ == x);
                            }
                            if x == k {
                                assert(self.entries@[n as int].0@ == x);
                            }
                        }
                        assert forall|x: Seq<char>| #[trigger] self@.contains_key(x) implies self@[x] == old_view.insert(k, v)[x] by {
                            let c = choose|c: int| 0 <= c < self.entries@.len() && self.entries@[c].0@ == x;
                            if x == k {
                                if c < n {
                                    assert(old_entries[c].0@ == k);
                                    assert(old_view.contains_key(k));
                                }
                            } else {
                                assert(c < n);
                                let d = choose|d: int| 0 <= d < old_entries.len() && old_entries[d].0@ == x;
                                assert(d == c);
                            }
                        }
                    }
                }
            },
        }
    }
}


impl View for HistoryEntry {
    type V = (Seq<char>, Seq<char>, i64);

    /// URL, title and visit time.
    open spec fn view(&self) -> (Seq<char>, Seq<char>, i64) {
        (self.url@, self.title@, self.visited_at)
    }
}

impl View for Bookmark {
    type V = (Seq<char>, Seq<char>);

    /// URL and title.
    open spec fn view(&self) -> (Seq<char>, Seq<char>) {
        (self.url@, self.title@)
    }
}

impl View for DownloadEntry {
    type V = (Seq<char>, Seq<char>, Seq<char>, i64, bool);

    /// URL, file name, path, completion time and outcome.
    open spec fn view(&self) -> (Seq<char>, Seq<char>, Seq<char>, i64, bool) {
        (self.url@, self.file_name@, self.path@, self.completed_at, self.success)
    }
}

/// The records of a history list, oldest first.
pub open spec fn history_records(v: Seq<HistoryEntry>) -> Seq<(Seq<char>, Seq<char>, i64)> {
    v.map_values(|e: HistoryEntry| e@)
}

/// The records of a bookmark list, in order.
pub open spec fn bookmark_records(v: Seq<Bookmark>) -> Seq<(Seq<char>, Seq<char>)> {
    v.map_values(|b: Bookmark| b@)
}

/// The records of a download list, oldest first.
pub open spec fn download_records(v: Seq<DownloadEntry>) -> Seq<
    (Seq<char>, Seq<char>, Seq<char>, i64, bool),
> {
    v.map_values(|d: DownloadEntry| d@)
}

/// The position of the most recent history record for `url`.
pub open spec fn last_visit_of(h: Seq<(Seq<char>, Seq<char>, i64)>, url: Seq<char>) -> Option<int>
    decreases h.len(),
{
    if h.len() == 0 {
        None
    } else if h.last().0 == url {
        Some(h.len() - 1)
    } else {
        last_visit_of(h.drop_last(), url)
    }
}

/// Records a visit to `url` at `now`, untitled for now, keeping at most
/// `HISTORY_LIMIT` entries (the oldest go first). An empty URL is not
/// recorded.
pub fn record_history(history: &mut Vec<HistoryEntry>, url: &str, now: i64)
    ensures
        url@.len() == 0 ==> history_records(final(history)@) == history_records(old(history)@),
        url@.len() > 0 ==> history_records(final(history)@) == keep_last(
            history_records(old(history)@).push((url@, Seq::<char>::empty(), now)),
            HISTORY_LIMIT as nat,
        ),
        final(history)@.len() <= HISTORY_LIMIT || final(history)@ == old(history)@,
{
    if url.is_empty() {
        return;
    }
    let ghost before = history@;
    let mut u = String::new();
    push_str(&mut u, url);
    history.push(HistoryEntry { url: u, title: String::new(), visited_at: now });
    assert(history_records(history@) == history_records(before).push((url@, Seq::<char>::empty(), now)));
    let ghost pushed = history@;
    drop_oldest(history, HISTORY_LIMIT);
    assert(history_records(history@) =~= keep_last(history_records(pushed), HISTORY_LIMIT as nat));
}

/// Gives the most recent history entry for `url` the page's `title`.
pub fn update_history_title(history: &mut Vec<HistoryEntry>, url: &str, title: &str)
    ensures
        match last_visit_of(history_records(old(history)@), url@) {
            Some(i) => history_records(final(history)@) == history_records(old(history)@).update(
                i,
                (url@, title@, history_records(old(history)@)[i].2),
            ),
            None => history_records(final(history)@) == history_records(old(history)@),
        },
{
    let uc = chars_of(url);
    let mut k = history.len();
    let ghost recs = history_records(history@);
    assert(recs.take(k as int) == recs);
    while k > 0
        invariant
            k <= history@.len(),
            recs == history_records(history@),
            recs == history_records(old(history)@),
            last_visit_of(recs, url@) == last_visit_of(recs.take(k as int), url@),
            uc@ == url@,
        decreases k,
    {
        proof {
            assert(recs.take(k as int).drop_last() == recs.take(k - 1));
            assert(recs.take(k as int).last() == recs[k - 1]);
        }
        if chars_eq(chars_of(history[k - 1].url.as_str()).as_slice(), uc.as_slice()) {
            let mut t = String::new();
            push_str(&mut t, title);
            let ghost old_entry = recs[k - 1];
            let mut entry = history.remove(k - 1);
            entry.title = t;
            history.insert(k - 1, entry);
            proof {
                assert(last_visit_of(recs, url@) == Some(k - 1));
                assert(history_records(history@) =~= recs.update(
                    k - 1,
                    (url@, title@, old_entry.2),
                ));
            }
            return;
        }
        k = k - 1;
    }
}

/// Drops every history entry for `url` visited at `visited_at`.
pub fn remove_history_entry(history: &mut Vec<HistoryEntry>, visited_at: i64, url: &str)
    ensures
        history_records(final(history)@) == history_records(old(history)@).filter(
            |r: (Seq<char>, Seq<char>, i64)| !(r.2 == visited_at && r.0 == url@),
        ),
{
    let uc = chars_of(url);
    let ghost pred = |r: (Seq<char>, Seq<char>, i64)| !(r.2 == visited_at && r.0 == url@);
    let ghost orig = history_records(history@);
    let mut i: usize = 0;
    let ghost mut k: int = 0;
    assert(orig.take(0) == Seq::<(Seq<char>, Seq<char>, i64)>::empty());
    while i < history.len()
        invariant
            uc@ == url@,
            pred == |r: (Seq<char>, Seq<char>, i64)| !(r.2 == visited_at && r.0 == url@),
            0 <= k <= orig.len(),
            i <= history@.len(),
            history_records(history@).take(i as int) == orig.take(k).filter(pred),
            history_records(history@).skip(i as int) == orig.skip(k),
        decreases history@.len() - i,
    {
        let ghost cur = history_records(history@);
        proof {
            assert(cur.skip(i as int).len() > 0);
            assert(orig.skip(k).len() == orig.len() - k);
            assert(cur.skip(i as int)[0] == cur[i as int]);
            assert(orig.skip(k)[0] == orig[k]);
            assert(cur[i as int] == orig[k]);
            assert(orig.take(k + 1).drop_last() == orig.take(k));
            assert(orig.take(k + 1).last() == orig[k]);
            assert(orig.skip(k + 1) == orig.skip(k).drop_first());
        }
        if history[i].visited_at == visited_at && chars_eq(
            chars_of(history[i].url.as_str()).as_slice(),
            uc.as_slice(),
        ) {
            history.remove(i);
            proof {
                assert(!pred(orig[k]));
                reveal_with_fuel(Seq::filter, 1);
                assert(orig.take(k + 1).filter(pred) == orig.take(k).filter(pred));
                assert(history_records(history@).take(i as int) == cur.take(i as int));
                assert(history_records(history@).skip(i as int) == cur.skip(i + 1));
                k = k + 1;
            }
        } else {
            proof {
                assert(pred(orig[k]));
                reveal_with_fuel(Seq::filter, 1);
                assert(orig.take(k + 1).filter(pred) == orig.take(k).filter(pred).push(orig[k]));
                assert(cur.take(i + 1) == cur.take(i as int).push(cur[i as int]));
                assert(cur.skip(i + 1) == cur.skip(i as int).drop_first());
                k = k + 1;
            }
            i = i + 1;
        }
    }
    proof {
        assert(history_records(history@).take(i as int) == history_records(history@));
        assert(orig.skip(k).len() == 0);
        assert(orig.take(k) == orig);
    }
}

/// The history list as shown: most recent first, each entry with the
/// favicon stored for its page, if any.
pub fn history_view(history: &Vec<HistoryEntry>, favicons: &FaviconMap) -> (r: Vec<HistoryEntryView>)
    requires
        favicons.wf(),
    ensures
        r@.len() == history@.len(),
        forall|i: int|
            0 <= i < r@.len() ==> {
                let e = history@[history@.len() - 1 - i];
                &&& (#[trigger] r@[i]).url@ == e.url@
                &&& r@[i].title@ == e.title@
                &&& r@[i].visited_at == e.visited_at
                &&& match r@[i].favicon {
                    Some(f) => favicons@.contains_key(e.url@) && favicons@[e.url@] == f@,
                    None => !favicons@.contains_key(e.url@),
                }
            },
{
    let mut r: Vec<HistoryEntryView> = Vec::new();
    let n = history.len();
    let mut i: usize = 0;
    while i < n
        invariant
            n == history@.len(),
            favicons.wf(),
            i <= n,
            r@.len() == i,
            forall|m: int|
                0 <= m < i ==> {
                    let e = history@[n - 1 - m];
                    &&& (#[trigger] r@[m]).url@ == e.url@
                    &&& r@[m].title@ == e.title@
                    &&& r@[m].visited_at == e.visited_at
                    &&& match r@[m].favicon {
                        Some(f) => favicons@.contains_key(e.url@) && favicons@[e.url@] == f@,
                        None => !favicons@.contains_key(e.url@),
                    }
                },
        decreases n - i,
    {
        let e = &history[n - 1 - i];
        r.push(
            HistoryEntryView {
                url: e.url.clone(),
                title: e.title.clone(),
                visited_at: e.visited_at,
                favicon: favicons.get(e.url.as_str()),
            },
        );
        i = i + 1;
    }
    r
}

/// The bookmarks as shown: in order, each with its page's favicon, if any.
pub fn bookmarks_view(bookmarks: &Vec<Bookmark>, favicons: &FaviconMap) -> (r: Vec<BookmarkView>)
    requires
        favicons.wf(),
    ensures
        r@.len() == bookmarks@.len(),
        forall|i: int|
            0 <= i < r@.len() ==> {
                let b = bookmarks@[i];
                &&& (#[trigger] r@[i]).url@ == b.url@
                &&& r@[i].title@ == b.title@
                &&& match r@[i].favicon {
                    Some(f) => favicons@.contains_key(b.url@) && favicons@[b.url@] == f@,
                    None => !favicons@.contains_key(b.url@),
                }
            },
{
    let mut r: Vec<BookmarkView> = Vec::new();
    let mut i: usize = 0;
    while i < bookmarks.len()
        invariant
            favicons.wf(),
            i <= bookmarks@.len(),
            r@.len() == i,
            forall|m: int|
                0 <= m < i ==> {
                    let b = bookmarks@[m];
                    &&& (#[trigger] r@[m]).url@ == b.url@
                    &&& r@[m].title@ == b.title@
                    &&& match r@[m].favicon {
                        Some(f) => favicons@.contains_key(b.url@) && favicons@[b.url@] == f@,
                        None => !favicons@.contains_key(b.url@),
                    }
                },
        decreases bookmarks@.len() - i,
    {
        let b = &bookmarks[i];
        r.push(
            BookmarkView {
                url: b.url.clone(),
                title: b.title.clone(),
                favicon: favicons.get(b.url.as_str()),
            },
        );
        i = i + 1;
    }
    r
}

/// Some bookmark in `bs` is for `url`.
pub open spec fn has_bookmark(bs: Seq<(Seq<char>, Seq<char>)>, url: Seq<char>) -> bool {
    exists|i: int| 0 <= i < bs.len() && (#[trigger] bs[i]).0 == url
}

/// Bookmarks `url` under `title`, unless a bookmark for `url` exists.
pub fn add_bookmark(bookmarks: &mut Vec<Bookmark>, url: String, title: String)
    ensures
        has_bookmark(bookmark_records(old(bookmarks)@), url@) ==> bookmark_records(final(bookmarks)@)
            == bookmark_records(old(bookmarks)@),
        !has_bookmark(bookmark_records(old(bookmarks)@), url@) ==> bookmark_records(
            final(bookmarks)@,
        ) == bookmark_records(old(bookmarks)@).push((url@, title@)),
{
    let uc = chars_of(url.as_str());
    let ghost recs = bookmark_records(bookmarks@);
    let mut i: usize = 0;
    while i < bookmarks.len()
        invariant
            i <= bookmarks@.len(),
            recs == bookmark_records(bookmarks@),
            uc@ == url@,
            forall|m: int| 0 <= m < i ==> (#[trigger] recs[m]).0 != url@,
        decreases bookmarks@.len() - i,
    {
        if chars_eq(chars_of(bookmarks[i].url.as_str()).as_slice(), uc.as_slice()) {
            assert(recs[i as int].0 == url@);
            return;
        }
        i = i + 1;
    }
    bookmarks.push(Bookmark { url, title });
    assert(bookmark_records(bookmarks@) =~= recs.push((url@, title@)));
}

/// Drops every bookmark for `url`.
pub fn remove_bookmark(bookmarks: &mut Vec<Bookmark>, url: &str)
    ensures
        bookmark_records(final(bookmarks)@) == bookmark_records(old(bookmarks)@).filter(
            |r: (Seq<char>, Seq<char>)| r.0 != url@,
        ),
{
    let uc = chars_of(url);
    let ghost pred = |r: (Seq<char>, Seq<char>)| r.0 != url@;
    let ghost orig = bookmark_records(bookmarks@);
    let mut i: usize = 0;
    let ghost mut k: int = 0;
    assert(orig.take(0) == Seq::<(Seq<char>, Seq<char>)>::empty());
    while i < bookmarks.len()
        invariant
            uc@ == url@,
            pred == |r: (Seq<char>, Seq<char>)| r.0 != url@,
            0 <= k <= orig.len(),
            i <= bookmarks@.len(),
            bookmark_records(bookmarks@).take(i as int) == orig.take(k).filter(pred),
            bookmark_records(bookmarks@).skip(i as int) == orig.skip(k),
        decreases bookmarks@.len() - i,
    {
        let ghost cur = bookmark_records(bookmarks@);
        proof {
            assert(cur.skip(i as int).len() > 0);
            assert(orig.skip(k).len() == orig.len() - k);
            assert(cur.skip(i as int)[0] == cur[i as int]);
            assert(orig.skip(k)[0] == orig[k]);
            assert(cur[i as int] == orig[k]);
            assert(orig.take(k + 1).drop_last() == orig.take(k));
            assert(orig.take(k + 1).last() == orig[k]);
            assert(orig.skip(k + 1) == orig.skip(k).drop_first());
        }
        if chars_eq(chars_of(bookmarks[i].url.as_str()).as_slice(), uc.as_slice()) {
            bookmarks.remove(i);
            proof {
                assert(!pred(orig[k]));
                reveal_with_fuel(Seq::filter, 1);
                assert(orig.take(k + 1).filter(pred) == orig.take(k).filter(pred));
                assert(bookmark_records(bookmarks@).take(i as int) == cur.take(i as int));
                assert(bookmark_records(bookmarks@).skip(i as int) == cur.skip(i + 1));
                k = k + 1;
            }
        } else {
            proof {
                assert(pred(orig[k]));
                reveal_with_fuel(Seq::filter, 1);
                assert(orig.take(k + 1).filter(pred) == orig.take(k).filter(pred).push(orig[k]));
                assert(cur.take(i + 1) == cur.take(i as int).push(cur[i as int]));
                assert(cur.skip(i + 1) == cur.skip(i as int).drop_first());
                k = k + 1;
            }
            i = i + 1;
        }
    }
    proof {
        assert(bookmark_records(bookmarks@).take(i as int) == bookmark_records(bookmarks@));
        assert(orig.skip(k).len() == 0);
        assert(orig.take(k) == orig);
    }
}


/// Records a finished download, keeping at most `DOWNLOAD_LIMIT` entries
/// (the oldest go first). `path` is the saved file's name (when it has
/// one) and full path, if the engine reported where it went; the URL
/// stands in for a missing name, and the path is then empty.
pub fn record_download(
    downloads: &mut Vec<DownloadEntry>,
    url: &str,
    path: Option<(Option<String>, String)>,
    success: bool,
    now: i64,
)
    ensures
        download_records(final(downloads)@) == keep_last(
            download_records(old(downloads)@).push(
                match path {
                    Some((Some(name), full)) => (url@, name@, full@, now, success),
                    Some((None, full)) => (url@, url@, full@, now, success),
                    None => (url@, url@, Seq::<char>::empty(), now, success),
                },
            ),
            DOWNLOAD_LIMIT as nat,
        ),
        final(downloads)@.len() <= DOWNLOAD_LIMIT,
{
    let mut u = String::new();
    push_str(&mut u, url);
    let (file_name, path_str) = match path {
        Some((name, full)) => {
            let n = match name {
                Some(n) => n,
                None => {
                    let mut t = String::new();
                    push_str(&mut t, url);
                    t
                },
            };
            (n, full)
        },
        None => {
            let mut t = String::new();
            push_str(&mut t, url);
            (t, String::new())
        },
    };
    let ghost before = downloads@;
    downloads.push(
        DownloadEntry { url: u, file_name, path: path_str, completed_at: now, success },
    );
    let ghost pushed = downloads@;
    assert(download_records(pushed) == download_records(before).push(pushed.last()@));
    drop_oldest(downloads, DOWNLOAD_LIMIT);
    assert(download_records(downloads@) =~= keep_last(download_records(pushed), DOWNLOAD_LIMIT as nat));
}

/// The downloads list as shown: most recent first.
pub fn downloads_view(downloads: &Vec<DownloadEntry>) -> (r: Vec<DownloadEntry>)
    ensures
        download_records(r@) == download_records(downloads@).reverse(),
{
    let mut r: Vec<DownloadEntry> = Vec::new();
    let n = downloads.len();
    let mut i: usize = 0;
    while i < n
        invariant
            n == downloads@.len(),
            i <= n,
            r@.len() == i,
            forall|m: int| 0 <= m < i ==> (#[trigger] r@[m])@ == downloads@[n - 1 - m]@,
        decreases n - i,
    {
        let d = &downloads[n - 1 - i];
        r.push(
            DownloadEntry {
                url: d.url.clone(),
                file_name: d.file_name.clone(),
                path: d.path.clone(),
                completed_at: d.completed_at,
                success: d.success,
            },
        );
        i = i + 1;
    }
    assert(download_records(r@) =~= download_records(downloads@).reverse());
    r
}

/// Drops every download entry for `url` completed at `completed_at`.
pub fn remove_download_entry(downloads: &mut Vec<DownloadEntry>, completed_at: i64, url: &str)
    ensures
        download_records(final(downloads)@) == download_records(old(downloads)@).filter(
            |r: (Seq<char>, Seq<char>, Seq<char>, i64, bool)| !(r.3 == completed_at && r.0 == url@),
        ),
{
    let uc = chars_of(url);
    let ghost pred = |r: (Seq<char>, Seq<char>, Seq<char>, i64, bool)|
        !(r.3 == completed_at && r.0 == url@);
    let ghost orig = download_records(downloads@);
    let mut i: usize = 0;
    let ghost mut k: int = 0;
    assert(orig.take(0) == Seq::<(Seq<char>, Seq<char>, Seq<char>, i64, bool)>::empty());
    while i < downloads.len()
        invariant
            uc@ == url@,
            pred == |r: (Seq<char>, Seq<char>, Seq<char>, i64, bool)|
                !(r.3 == completed_at && r.0 == url@),
            0 <= k <= orig.len(),
            i <= downloads@.len(),
            download_records(downloads@).take(i as int) == orig.take(k).filter(pred),
            download_records(downloads@).skip(i as int) == orig.skip(k),
        decreases downloads@.len() - i,
    {
        let ghost cur = download_records(downloads@);
        proof {
            assert(cur.skip(i as int).len() > 0);
            assert(orig.skip(k).len() == orig.len() - k);
            assert(cur.skip(i as int)[0] == cur[i as int]);
            assert(orig.skip(k)[0] == orig[k]);
            assert(cur[i as int] == orig[k]);
            assert(orig.take(k + 1).drop_last() == orig.take(k));
            assert(orig.take(k + 1).last() == orig[k]);
            assert(orig.skip(k + 1) == orig.skip(k).drop_first());
        }
        if downloads[i].completed_at == completed_at && chars_eq(
            chars_of(downloads[i].url.as_str()).as_slice(),
            uc.as_slice(),
        ) {
            downloads.remove(i);
            proof {
                assert(!pred(orig[k]));
                reveal_with_fuel(Seq::filter, 1);
                assert(orig.take(k + 1).filter(pred) == orig.take(k).filter(pred));
                assert(download_records(downloads@).take(i as int) == cur.take(i as int));
                assert(download_records(downloads@).skip(i as int) == cur.skip(i + 1));
                k = k + 1;
            }
        } else {
            proof {
                assert(pred(orig[k]));
                reveal_with_fuel(Seq::filter, 1);
                assert(orig.take(k + 1).filter(pred) == orig.take(k).filter(pred).push(orig[k]));
                assert(cur.take(i + 1) == cur.take(i as int).push(cur[i as int]));
                assert(cur.skip(i + 1) == cur.skip(i as int).drop_first());
                k = k + 1;
            }
            i = i + 1;
        }
    }
    proof {
        assert(download_records(downloads@).take(i as int) == download_records(downloads@));
        assert(orig.skip(k).len() == 0);
        assert(orig.take(k) == orig);
    }
}

// ---------------------------------------------------------------------
// Settings
// ---------------------------------------------------------------------

/// The search engines that can be picked.
pub open spec fn is_valid_engine(e: Seq<char>) -> bool {
    e == "google"@ || e == "bing"@ || e == "duckduckgo"@
}

/// The startup behaviours that can be picked.
pub open spec fn is_valid_homepage_mode(m: Seq<char>) -> bool {
    m == "home"@ || m == "custom"@ || m == "blank"@ || m == "restore"@
}

/// What a new tab (or Home) loads under the given startup settings: the
/// custom page when one is set, a blank page for `blank`, and Kite's home
/// page otherwise (`home`, `restore`, or `custom` without a URL).
pub open spec fn startup_url(mode: Seq<char>, url: Seq<char>) -> Seq<char> {
    if mode == "custom"@ && url.len() > 0 {
        url
    } else if mode == "blank"@ {
        BLANK_URL@
    } else {
        HOME_URL@
    }
}

/// The fields of the settings other than `search_engine` are those of `b`.
pub open spec fn same_except_engine(a: Settings, b: Settings) -> bool {
    a.homepage_mode == b.homepage_mode && a.homepage_url == b.homepage_url && a.downloads_dir
        == b.downloads_dir && a.content_blocking_enabled == b.content_blocking_enabled
}

/// Picks the search engine; an unknown name is refused and nothing changes.
pub fn set_search_engine(settings: &mut Settings, engine: String) -> (r: Result<(), String>)
    ensures
        is_valid_engine(engine@) ==> r is Ok && final(settings).search_engine@ == engine@
            && same_except_engine(*final(settings), *old(settings)),
        !is_valid_engine(engine@) ==> *final(settings) == *old(settings) && (r matches Err(e)
            && e@ == "unknown search engine: "@ + engine@),
{
    let ec = chars_of(engine.as_str());
    if !(chars_eq_str(ec.as_slice(), "google") || chars_eq_str(ec.as_slice(), "bing")
        || chars_eq_str(ec.as_slice(), "duckduckgo")) {
        let mut e = String::new();
        push_str(&mut e, "unknown search engine: ");
        push_str(&mut e, engine.as_str());
        return Err(e);
    }
    settings.search_engine = engine;
    Ok(())
}

/// Picks the startup behaviour. Only `custom` keeps a URL, validated and
/// normalized first; the other modes clear it. An unknown mode, or an
/// invalid custom URL, is refused and nothing changes.
pub fn set_homepage(settings: &mut Settings, mode: String, url: &str) -> (r: Result<(), String>)
    ensures
        !is_valid_homepage_mode(mode@) ==> *final(settings) == *old(settings) && (r matches Err(e)
            && e@ == "unknown homepage mode: "@ + mode@),
        is_valid_homepage_mode(mode@) && mode@ == "custom"@ ==> match normalized_homepage(url@) {
            Ok(u) => r is Ok && final(settings).homepage_mode@ == mode@
                && final(settings).homepage_url@ == u,
            Err(m) => *final(settings) == *old(settings) && (r matches Err(e) && e@ == m),
        },
        is_valid_homepage_mode(mode@) && mode@ != "custom"@ ==> r is Ok && final(settings).homepage_mode@ == mode@ && final(settings).homepage_url@ == Seq::<char>::empty(),
        r is Ok ==> final(settings).search_engine == old(settings).search_engine && final(settings).downloads_dir == old(settings).downloads_dir && final(settings).content_blocking_enabled
            == old(settings).content_blocking_enabled,
{
    let mc = chars_of(mode.as_str());
    if !(chars_eq_str(mc.as_slice(), "home") || chars_eq_str(mc.as_slice(), "custom")
        || chars_eq_str(mc.as_slice(), "blank") || chars_eq_str(mc.as_slice(), "restore")) {
        let mut e = String::new();
        push_str(&mut e, "unknown homepage mode: ");
        push_str(&mut e, mode.as_str());
        return Err(e);
    }
    let stored_url = if chars_eq_str(mc.as_slice(), "custom") {
        match normalize_homepage_url(url) {
            Ok(u) => u,
            Err(e) => {
                return Err(e);
            },
        }
    } else {
        String::new()
    };
    settings.homepage_mode = mode;
    settings.homepage_url = stored_url;
    Ok(())
}

/// What a new tab, or Home, loads under the current startup settings.
pub fn startup_target(settings: &Settings) -> (r: String)
    ensures
        r@ == startup_url(settings.homepage_mode@, settings.homepage_url@),
{
    let mc = chars_of(settings.homepage_mode.as_str());
    let mut out = String::new();
    if chars_eq_str(mc.as_slice(), "custom") && !settings.homepage_url.as_str().is_empty() {
        push_str(&mut out, settings.homepage_url.as_str());
    } else if chars_eq_str(mc.as_slice(), "blank") {
        push_str(&mut out, BLANK_URL);
    } else {
        push_str(&mut out, HOME_URL);
    }
    out
}

/// The URLs of a session's tabs, in order.
pub open spec fn session_urls(tabs: Seq<SessionTab>) -> Seq<Seq<char>> {
    tabs.map_values(|t: SessionTab| t.url@)
}

/// The saved active index as restored among `count` tabs: clamped to the
/// last one.
pub open spec fn restored_index(active_index: int, count: int) -> int {
    if active_index < count {
        active_index
    } else {
        count - 1
    }
}

/// The tabs to open at launch and which of them to activate: under
/// `restore`, every tab of the last saved session (the saved active index
/// clamped to the last tab); otherwise, or with no saved tabs, the single
/// startup page.
pub fn initial_session_tabs(settings: &Settings, session: &SessionState) -> (r: (Vec<String>, usize))
    ensures
        settings.homepage_mode@ == "restore"@ && session.tabs@.len() > 0 ==> r.0@.map_values(
            |s: String| s@,
        ) == session_urls(session.tabs@) && r.1 == restored_index(
            session.active_index as int,
            session.tabs@.len() as int,
        ),
        !(settings.homepage_mode@ == "restore"@ && session.tabs@.len() > 0) ==> r.0@.len() == 1
            && r.0@[0]@ == startup_url(settings.homepage_mode@, settings.homepage_url@) && r.1 == 0,
{
    let mc = chars_of(settings.homepage_mode.as_str());
    if chars_eq_str(mc.as_slice(), "restore") && session.tabs.len() > 0 {
        let mut urls: Vec<String> = Vec::new();
        let mut i: usize = 0;
        while i < session.tabs.len()
            invariant
                i <= session.tabs@.len(),
                urls@.len() == i,
                forall|m: int| 0 <= m < i ==> (#[trigger] urls@[m])@ == session.tabs@[m].url@,
            decreases session.tabs@.len() - i,
        {
            urls.push(session.tabs[i].url.clone());
            i = i + 1;
        }
        assert(urls@.map_values(|s: String| s@) =~= session_urls(session.tabs@));
        let last = session.tabs.len() - 1;
        let active = if session.active_index < last {
            session.active_index
        } else {
            last
        };
        return (urls, active);
    }
    let mut v: Vec<String> = Vec::new();
    v.push(startup_target(settings));
    (v, 0)
}

/// The tab to activate once the startup tabs are open: the one at the
/// restored active index among the tabs that did open, or the first of
/// them when fewer opened; `None` when none did.
pub fn restored_active_label(labels: &[String], index: usize) -> (r: Option<String>)
    ensures
        match r {
            Some(l) => labels@.len() > 0 && l@ == (if index < labels@.len() {
                labels@[index as int]
            } else {
                labels@[0]
            })@,
            None => labels@.len() == 0,
        },
{
    if labels.len() == 0 {
        None
    } else if index < labels.len() {
        Some(labels[index].clone())
    } else {
        Some(labels[0].clone())
    }
}

// ---------------------------------------------------------------------
// Content-blocking allowlist and blocklist status
// ---------------------------------------------------------------------

/// The host names of an allowlist, in order.
pub open spec fn allowlist_hosts(v: Seq<String>) -> Seq<Seq<char>> {
    v.map_values(|s: String| s@)
}

/// The position of the first `x` in `s`.
pub open spec fn first_index_of(s: Seq<Seq<char>>, x: Seq<char>) -> Option<int>
    decreases s.len(),
{
    if s.len() == 0 {
        None
    } else if s[0] == x {
        Some(0)
    } else {
        match first_index_of(s.drop_first(), x) {
            Some(i) => Some(i + 1),
            None => None,
        }
    }
}

pub proof fn lemma_first_index_of(s: Seq<Seq<char>>, x: Seq<char>)
    ensures
        match first_index_of(s, x) {
            Some(i) => 0 <= i < s.len() && s[i] == x && forall|j: int| 0 <= j < i ==> s[j] != x,
            None => forall|j: int| 0 <= j < s.len() ==> s[j] != x,
        },
    decreases s.len(),
{
    if s.len() > 0 && s[0] != x {
        lemma_first_index_of(s.drop_first(), x);
        assert forall|j: int| 0 < j < s.len() implies s[j] == s.drop_first()[j - 1] by {}
    }
}

/// The allowlist after toggling `host`: its first occurrence removed if it
/// is there, else `host` added at the end.
pub open spec fn toggled(hosts: Seq<Seq<char>>, host: Seq<char>) -> Seq<Seq<char>> {
    match first_index_of(hosts, host) {
        Some(i) => hosts.remove(i),
        None => hosts.push(host),
    }
}

/// Turns content blocking off for `host` if it is on, or back on if it is
/// off; returns whether the host is now allowlisted.
pub fn toggle_allowlist(allowlist: &mut Vec<String>, host: String) -> (now_allowlisted: bool)
    ensures
        allowlist_hosts(final(allowlist)@) == toggled(allowlist_hosts(old(allowlist)@), host@),
        now_allowlisted == (first_index_of(allowlist_hosts(old(allowlist)@), host@) is None),
{
    let hc = chars_of(host.as_str());
    let ghost hosts = allowlist_hosts(allowlist@);
    proof {
        lemma_first_index_of(hosts, host@);
    }
    let mut i: usize = 0;
    while i < allowlist.len()
        invariant
            i <= allowlist@.len(),
            hosts == allowlist_hosts(allowlist@),
            hosts == allowlist_hosts(old(allowlist)@),
            hc@ == host@,
            forall|j: int| 0 <= j < i ==> hosts[j] != host@,
        decreases allowlist@.len() - i,
    {
        if chars_eq(chars_of(allowlist[i].as_str()).as_slice(), hc.as_slice()) {
            proof {
                lemma_first_index_of(hosts, host@);
                match first_index_of(hosts, host@) {
                    Some(f) => {
                        if f < i {
                        } else if f > i {
                            assert(hosts[i as int] == host@);
                        }
                    },
                    None => {
                        assert(hosts[i as int] == host@);
                    },
                }
            }
            allowlist.remove(i);
            assert(allowlist_hosts(allowlist@) =~= hosts.remove(i as int));
            return false;
        }
        i = i + 1;
    }
    proof {
        lemma_first_index_of(hosts, host@);
        if let Some(f) = first_index_of(hosts, host@) {
            assert(hosts[f] == host@);
        }
    }
    allowlist.push(host);
    assert(allowlist_hosts(allowlist@) =~= hosts.push(host@));
    true
}

/// How a blocklist refresh went, as reported to the interface.
pub struct BlocklistRefreshResult {
    pub success: bool,
    pub entry_count: usize,
    /// Unix ms.
    pub refreshed_at: i64,
    pub error: Option<String>,
}

/// Records the outcome of a blocklist refresh finished at `now`: on
/// success the refresh time and entry count are stored; either way the
/// report for the interface is returned.
pub fn finish_blocklist_refresh(data: &mut PersistedData, outcome: Result<usize, String>, now: i64) -> (r: BlocklistRefreshResult)
    ensures
        match outcome {
            Ok(count) => r.success && r.entry_count == count && r.refreshed_at == now && r.error is None
                && final(data).last_blocklist_refresh == Some(now) && final(data).blocklist_entry_count
                == Some(count),
            Err(e) => !r.success && r.entry_count == 0 && r.refreshed_at == now && (r.error matches Some(x) && x@ == e@)
                && final(data).last_blocklist_refresh == old(data).last_blocklist_refresh
                && final(data).blocklist_entry_count == old(data).blocklist_entry_count,
        },
        final(data).history == old(data).history,
        final(data).bookmarks == old(data).bookmarks,
        final(data).downloads == old(data).downloads,
        final(data).settings == old(data).settings,
        final(data).content_blocking_allowlist == old(data).content_blocking_allowlist,
{
    match outcome {
        Ok(count) => {
            data.last_blocklist_refresh = Some(now);
            data.blocklist_entry_count = Some(count);
            BlocklistRefreshResult { success: true, entry_count: count, refreshed_at: now, error: None }
        },
        Err(e) => BlocklistRefreshResult { success: false, entry_count: 0, refreshed_at: now, error: Some(e) },
    }
}

impl PersistedData {
    /// The data of a fresh install: nothing recorded, default settings.
    pub fn new() -> (d: Self)
        ensures
            d.favicons.wf(),
            d.history@.len() == 0,
            d.bookmarks@.len() == 0,
            d.downloads@.len() == 0,
            d.session.tabs@.len() == 0,
            d.session.active_index == 0,
            d.content_blocking_allowlist@.len() == 0,
            d.last_blocklist_refresh is None,
            d.blocklist_entry_count is None,
            d.settings.search_engine@ == "google"@,
            d.settings.homepage_mode@ == "home"@,
            d.settings.homepage_url@.len() == 0,
            d.settings.downloads_dir is None,
            d.settings.content_blocking_enabled,
    {
        PersistedData {
            history: Vec::new(),
            bookmarks: Vec::new(),
            downloads: Vec::new(),
            settings: Settings::new(),
            session: SessionState { tabs: Vec::new(), active_index: 0 },
            favicons: FaviconMap::new(),
            content_blocking_allowlist: Vec::new(),
            last_blocklist_refresh: None,
            blocklist_entry_count: None,
        }
    }
}

} // verus!
