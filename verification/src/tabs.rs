//! The tab strip: which tabs are open, which is active, what each shows,
//! recently closed tabs, the library panel's pin, and per-tab zoom.
use vstd::prelude::*;
use crate::blocklist::{blocked_in, host_matches_allowlist, is_blocked_host, matches_allowlist};
use crate::hostset::HostSet;
use crate::encoding::{dec_digits, lemma_dec_digits_injective, parse_url_host, push_decimal, url_host};
use crate::persist::{keep_last, session_urls, SessionState, SessionTab};
use crate::text::{chars_eq, chars_of, has_prefix, lowercase, push_str, starts_with, str_eq, to_lowercase};
use crate::urls::{is_crashed_asset_url, is_home_asset_url, HOME_URL};

verus! {

/// Most recently closed tabs remembered for reopening.
pub const CLOSED_TABS_LIMIT: usize = 15;

/// Number of zoom steps (25% up to 500%).
pub const ZOOM_LEVEL_COUNT: usize = 17;

/// The zoom step of 100%.
pub const DEFAULT_ZOOM_LEVEL: usize = 7;

/// Label of the webview that holds the tab bar, toolbar and library panel.
pub const MAIN_WEBVIEW_LABEL: &'static str = "chrome";

/// One open tab.
pub struct TabInfo {
    /// The tab's webview label, `content-<n>`.
    pub label: String,
    pub title: String,
    /// The page's address; a crashed tab keeps its last real address.
    pub url: String,
    /// Index of the tab's zoom step.
    pub zoom_level: usize,
    /// The tab shows the crash-recovery page.
    pub crashed: bool,
    /// `data:` URL of the page's favicon, once fetched.
    pub favicon: Option<String>,
    /// A private tab: nothing of it is written to disk.
    pub is_private: bool,
    /// Requests blocked on the current page.
    pub blocked_count: u32,
    /// Content blocking is off for the current page's site.
    pub site_allowlisted: bool,
}

/// All tabs and the state around them.
pub struct TabState {
    pub tabs: Vec<TabInfo>,
    /// Label of the active tab (empty before the first tab exists).
    pub active: String,
    /// Number used for the next tab's label.
    pub next_id: u32,
    /// The tab the library panel is pinned to; `None` when it is closed.
    pub library_tab: Option<String>,
    /// The library view last shown (`history`, `bookmarks`, ...).
    pub library_view: String,
    /// URLs of recently closed tabs, most recent last.
    pub closed_tabs: Vec<String>,
}

// ---------------------------------------------------------------------
// Specifications
// ---------------------------------------------------------------------

/// Position of the first tab labelled `label`.
pub open spec fn tab_index(tabs: Seq<TabInfo>, label: Seq<char>) -> Option<int>
    decreases tabs.len(),
{
    if tabs.len() == 0 {
        None
    } else if tabs[0].label@ == label {
        Some(0)
    } else {
        match tab_index(tabs.drop_first(), label) {
            Some(i) => Some(i + 1),
            None => None,
        }
    }
}

/// `tab_index` finds the first tab with the label.
pub proof fn lemma_tab_index(tabs: Seq<TabInfo>, label: Seq<char>)
    ensures
        match tab_index(tabs, label) {
            Some(i) => 0 <= i < tabs.len() && tabs[i].label@ == label && forall|j: int|
                0 <= j < i ==> tabs[j].label@ != label,
            None => forall|j: int| 0 <= j < tabs.len() ==> tabs[j].label@ != label,
        },
    decreases tabs.len(),
{
    if tabs.len() > 0 && tabs[0].label@ != label {
        lemma_tab_index(tabs.drop_first(), label);
        assert forall|j: int| 0 < j < tabs.len() implies tabs[j] == tabs.drop_first()[j - 1] by {}
    }
}

/// The label of a newly opened tab with number `id`.
pub open spec fn tab_label(id: nat) -> Seq<char> {
    "content-"@ + dec_digits(id)
}

/// Different tab numbers give different labels.
pub proof fn lemma_tab_label_injective(a: nat, b: nat)
    requires
        tab_label(a) == tab_label(b),
    ensures
        a == b,
{
    let p = "content-"@;
    assert(tab_label(a).skip(p.len() as int) =~= dec_digits(a));
    assert(tab_label(b).skip(p.len() as int) =~= dec_digits(b));
    lemma_dec_digits_injective(a, b);
}

/// The tab labels are pairwise distinct, and none is a label that a later
/// `allocate_label` gives out (`content-<k>` with `k >= next_id`).
pub open spec fn labels_fresh(tabs: Seq<TabInfo>, next_id: nat) -> bool {
    &&& forall|i: int, j: int| 0 <= i < j < tabs.len() ==> tabs[i].label@ != tabs[j].label@
    &&& forall|i: int, k: nat| 0 <= i < tabs.len() && next_id <= k ==> tabs[i].label@ != tab_label(k)
}

/// Each tab of `b` bears the label of a different tab of `a` (tab `j` of
/// `b` that of tab `f(j)` of `a`): fresh labels stay fresh.
pub proof fn lemma_labels_fresh_reindex(a: Seq<TabInfo>, b: Seq<TabInfo>, n: nat, f: spec_fn(int) -> int)
    requires
        labels_fresh(a, n),
        forall|j: int| 0 <= j < b.len() ==> 0 <= #[trigger] f(j) < a.len() && b[j].label@ == a[f(j)].label@,
        forall|i: int, j: int| 0 <= i < j < b.len() ==> #[trigger] f(i) != #[trigger] f(j),
    ensures
        labels_fresh(b, n),
{
    assert forall|i: int, j: int| 0 <= i < j < b.len() implies b[i].label@ != b[j].label@ by {
        assert(f(i) != f(j));
        assert(0 <= f(i) < a.len() && 0 <= f(j) < a.len());
        if f(i) < f(j) {
            assert(a[f(i)].label@ != a[f(j)].label@);
        } else {
            assert(a[f(j)].label@ != a[f(i)].label@);
        }
    }
    assert forall|i: int, k: nat| 0 <= i < b.len() && n <= k implies b[i].label@ != tab_label(k) by {
        assert(0 <= f(i) < a.len());
    }
}

/// A tab keeps fresh labels fresh when only its own fields but the label
/// change.
pub proof fn lemma_labels_fresh_same(a: Seq<TabInfo>, b: Seq<TabInfo>, n: nat)
    requires
        labels_fresh(a, n),
        a.len() == b.len(),
        forall|j: int| 0 <= j < b.len() ==> #[trigger] b[j].label@ == a[j].label@,
    ensures
        labels_fresh(b, n),
{
    lemma_labels_fresh_reindex(a, b, n, |j: int| j);
}

/// Removing a tab keeps the labels fresh.
pub proof fn lemma_labels_fresh_remove(a: Seq<TabInfo>, i: int, n: nat)
    requires
        labels_fresh(a, n),
        0 <= i < a.len(),
    ensures
        labels_fresh(a.remove(i), n),
{
    let f = |j: int| if j < i { j } else { j + 1 };
    lemma_labels_fresh_reindex(a, a.remove(i), n, f);
}

/// A tab opened under the label `allocate_label` gives out (number `n`)
/// keeps the labels fresh once the counter moves past `n`.
pub proof fn lemma_labels_fresh_push(a: Seq<TabInfo>, t: TabInfo, n: nat)
    requires
        labels_fresh(a, n),
        t.label@ == tab_label(n),
    ensures
        labels_fresh(a.push(t), n + 1),
{
    let b = a.push(t);
    assert forall|i: int, j: int| 0 <= i < j < b.len() implies b[i].label@ != b[j].label@ by {
        if j == a.len() {
            assert(a[i].label@ != tab_label(n));
        } else {
            assert(a[i].label@ != a[j].label@);
        }
    }
    assert forall|i: int, k: nat| 0 <= i < b.len() && n + 1 <= k implies b[i].label@ != tab_label(k) by {
        if i == a.len() {
            if tab_label(n) == tab_label(k) {
                lemma_tab_label_injective(n, k);
            }
        } else {
            assert(a[i].label@ != tab_label(k));
        }
    }
}

/// Every tab of `b` that bears the label of a tab of `a` is private exactly
/// when that tab was.
pub open spec fn privacy_kept(a: Seq<TabInfo>, b: Seq<TabInfo>) -> bool {
    forall|i: int, j: int|
        0 <= i < b.len() && 0 <= j < a.len() && #[trigger] b[i].label@ == #[trigger] a[j].label@ ==> b[i].is_private
            == a[j].is_private
}

/// The zoom step nearest to step `level` (steps past the last clamp to it).
pub open spec fn clamp_level(level: nat) -> nat {
    if level < ZOOM_LEVEL_COUNT {
        level
    } else {
        (ZOOM_LEVEL_COUNT - 1) as nat
    }
}

/// The zoom step after zooming in from `level`.
pub open spec fn zoom_in_level(level: nat) -> nat {
    if clamp_level(level) + 1 < ZOOM_LEVEL_COUNT {
        clamp_level(level) + 1
    } else {
        (ZOOM_LEVEL_COUNT - 1) as nat
    }
}

/// The zoom step after zooming out from `level`.
pub open spec fn zoom_out_level(level: nat) -> nat {
    if clamp_level(level) > 0 {
        (clamp_level(level) - 1) as nat
    } else {
        0
    }
}

/// The URLs of the tabs, in order.
pub open spec fn tab_urls(tabs: Seq<TabInfo>) -> Seq<Seq<char>> {
    tabs.map_values(|t: TabInfo| t.url@)
}

/// The labels of the tabs, in order.
pub open spec fn tab_labels(tabs: Seq<TabInfo>) -> Seq<Seq<char>> {
    tabs.map_values(|t: TabInfo| t.label@)
}

/// The tabs that are not private, in order.
pub open spec fn public_tabs(tabs: Seq<TabInfo>) -> Seq<TabInfo> {
    tabs.filter(|t: TabInfo| !t.is_private)
}

/// Everything in the state apart from the tab list is unchanged.
pub open spec fn same_except_tabs(a: TabState, b: TabState) -> bool {
    a.active == b.active && a.next_id == b.next_id && a.library_tab == b.library_tab
        && a.library_view == b.library_view && a.closed_tabs == b.closed_tabs
}

/// The tab list after closing the tab labelled `label`.
pub open spec fn tabs_after_close(tabs: Seq<TabInfo>, label: Seq<char>) -> Seq<TabInfo> {
    match tab_index(tabs, label) {
        Some(i) => tabs.remove(i),
        None => tabs,
    }
}

/// The recently-closed list after closing `label`: its URL is remembered
/// unless it is the home page or a private tab, keeping the last
/// `CLOSED_TABS_LIMIT`.
pub open spec fn closed_after_close(tabs: Seq<TabInfo>, closed: Seq<Seq<char>>, label: Seq<char>) -> Seq<Seq<char>> {
    match tab_index(tabs, label) {
        Some(i) => if tabs[i].url@ != HOME_URL@ && !tabs[i].is_private {
            keep_last(closed.push(tabs[i].url@), CLOSED_TABS_LIMIT as nat)
        } else {
            closed
        },
        None => closed,
    }
}

/// The URLs of a list of strings.
pub open spec fn string_views(v: Seq<String>) -> Seq<Seq<char>> {
    v.map_values(|s: String| s@)
}

// ---------------------------------------------------------------------
// Outcomes handed back to the caller
// ---------------------------------------------------------------------

/// What switching the active tab asks of the windowing layer.
pub struct Activation {
    /// The previously active tab's label.
    pub previous: String,
    /// The new tab carries the library panel: expand the chrome webview
    /// over the window and leave the tab's own content hidden.
    pub shows_library: bool,
    /// The previous tab carried the library panel: shrink the chrome
    /// webview back to the toolbar.
    pub leaves_library: bool,
    /// The previous tab's content must be moved out of sight.
    pub hides_previous: bool,
}

/// What closing a tab leaves to do.
pub struct CloseOutcome {
    /// The closed tab was the active one.
    pub was_active: bool,
    /// No tab is left: a fresh home tab must be opened.
    pub remaining_empty: bool,
    /// The tab to show next, when there is one.
    pub next_active: Option<String>,
    /// The library panel was pinned to the closed tab and is now closed.
    pub closed_library: bool,
}

/// What to do after a tab's page changed.
pub enum PageAction {
    /// Nothing more.
    Nothing,
    /// Hand the crash-recovery page the tab's real URL.
    PushCrashedUrl,
    /// Hand the home page the current search engine.
    PushSearchEngine,
    /// Record a visit to this URL in the history.
    RecordVisit(String),
    /// Give the latest history entry of the URL this title.
    UpdateHistoryTitle(String, String),
}

/// What a navigation in a tab leads to.
pub struct NavigationOutcome {
    /// The tab is the active one (the address bar must follow it).
    pub is_active: bool,
    pub action: PageAction,
}

// ---------------------------------------------------------------------
// Executable functions
// ---------------------------------------------------------------------

/// `usize::min`.
fn min_usize(a: usize, b: usize) -> (r: usize)
    ensures
        r == if a < b { a } else { b },
{
    if a < b { a } else { b }
}

/// The zoom step after zooming in from `level` (clamped to the last step).
pub fn zoom_in_step(level: usize) -> (r: usize)
    ensures
        r == zoom_in_level(level as nat),
        r < ZOOM_LEVEL_COUNT,
{
    let l = min_usize(level, ZOOM_LEVEL_COUNT - 1);
    min_usize(l + 1, ZOOM_LEVEL_COUNT - 1)
}

/// The zoom step after zooming out from `level` (not below the first step).
pub fn zoom_out_step(level: usize) -> (r: usize)
    ensures
        r == zoom_out_level(level as nat),
        r < ZOOM_LEVEL_COUNT,
{
    let l = min_usize(level, ZOOM_LEVEL_COUNT - 1);
    if l > 0 { l - 1 } else { 0 }
}

impl TabState {
    /// The tab labels are distinct and fresh (see `labels_fresh`).
    pub open spec fn labels_ok(&self) -> bool {
        labels_fresh(self.tabs@, self.next_id as nat)
    }

    /// No tabs yet; the library panel closed, its view `history`.
    pub fn new() -> (s: Self)
        ensures
            s.tabs@.len() == 0,
            s.active@ == Seq::<char>::empty(),
            s.next_id == 0,
            s.library_tab is None,
            s.library_view@ == "history"@,
            s.closed_tabs@.len() == 0,
            s.labels_ok(),
    {
        let mut view = String::new();
        push_str(&mut view, "history");
        TabState {
            tabs: Vec::new(),
            active: String::new(),
            next_id: 0,
            library_tab: None,
            library_view: view,
            closed_tabs: Vec::new(),
        }
    }

    /// Position of the first tab labelled `label`.
    pub fn find_tab(&self, label: &str) -> (r: Option<usize>)
        ensures
            match r {
                Some(i) => tab_index(self.tabs@, label@) == Some(i as int),
                None => tab_index(self.tabs@, label@) is None,
            },
    {
        let lc = chars_of(label);
        let mut i: usize = 0;
        while i < self.tabs.len()
            invariant
                i <= self.tabs@.len(),
                lc@ == label@,
                forall|j: int| 0 <= j < i ==> self.tabs@[j].label@ != label@,
            decreases self.tabs@.len() - i,
        {
            if chars_eq(chars_of(self.tabs[i].label.as_str()).as_slice(), lc.as_slice()) {
                proof {
                    lemma_tab_index(self.tabs@, label@);
                    match tab_index(self.tabs@, label@) {
                        Some(f) => {
                            if f > i {
                                assert(self.tabs@[i as int].label@ == label@);
                            }
                        },
                        None => {
                            assert(self.tabs@[i as int].label@ == label@);
                        },
                    }
                }
                return Some(i);
            }
            i = i + 1;
        }
        proof {
            lemma_tab_index(self.tabs@, label@);
            if let Some(f) = tab_index(self.tabs@, label@) {
                assert(self.tabs@[f].label@ == label@);
            }
        }
        None
    }

    /// Takes the number for a new tab and returns its label `content-<n>`.
    pub fn allocate_label(&mut self) -> (label: String)
        requires
            old(self).next_id < u32::MAX,
        ensures
            old(self).labels_ok() ==> privacy_kept(old(self).tabs@, final(self).tabs@),
            old(self).labels_ok() ==> final(self).labels_ok(),
            label@ == tab_label(old(self).next_id as nat),
            final(self).next_id == old(self).next_id + 1,
            final(self).tabs == old(self).tabs,
            final(self).active == old(self).active,
            final(self).library_tab == old(self).library_tab,
            final(self).library_view == old(self).library_view,
            final(self).closed_tabs == old(self).closed_tabs,
    {
        let id = self.next_id;
        self.next_id = id + 1;
        let mut label = String::new();
        push_str(&mut label, "content-");
        push_decimal(&mut label, id as u64);
        label
    }

    /// Adds a tab at the end of the strip, titled `New Tab`, at 100% zoom.
    pub fn push_tab(&mut self, label: String, url: String, private: bool)
        ensures
            old(self).labels_ok() && (forall|j: int|
                0 <= j < old(self).tabs@.len() ==> old(self).tabs@[j].label@ != label@) ==> privacy_kept(
                old(self).tabs@,
                final(self).tabs@,
            ),
            forall|n: nat|
                labels_fresh(old(self).tabs@, n) && label@ == tab_label(n) ==> labels_fresh(
                    final(self).tabs@,
                    n + 1,
                ),
            final(self).tabs@.len() == old(self).tabs@.len() + 1,
            final(self).tabs@.drop_last() == old(self).tabs@,
            ({
                let t = final(self).tabs@.last();
                &&& t.label@ == label@
                &&& t.url@ == url@
                &&& t.title@ == "New Tab"@
                &&& t.zoom_level == DEFAULT_ZOOM_LEVEL
                &&& !t.crashed
                &&& t.favicon is None
                &&& t.is_private == private
                &&& t.blocked_count == 0
                &&& !t.site_allowlisted
            }),
            same_except_tabs(*final(self), *old(self)),
    {
        let mut title = String::new();
        push_str(&mut title, "New Tab");
        self.tabs.push(
            TabInfo {
                label,
                title,
                url,
                zoom_level: DEFAULT_ZOOM_LEVEL,
                crashed: false,
                favicon: None,
                is_private: private,
                blocked_count: 0,
                site_allowlisted: false,
            },
        );
        assert(self.tabs@.drop_last() =~= old(self).tabs@);
        proof {
            assert forall|n: nat|
                labels_fresh(old(self).tabs@, n) && label@ == tab_label(n) implies labels_fresh(
                self.tabs@,
                n + 1,
            ) by {
                assert(self.tabs@ == old(self).tabs@.push(self.tabs@.last()));
                lemma_labels_fresh_push(old(self).tabs@, self.tabs@.last(), n);
            }
            let a = old(self).tabs@;
            let b = self.tabs@;
            if old(self).labels_ok() && (forall|j: int| 0 <= j < a.len() ==> a[j].label@ != label@) {
                assert forall|i: int, j: int|
                    0 <= i < b.len() && 0 <= j < a.len() && #[trigger] b[i].label@ == #[trigger] a[j].label@
                        implies b[i].is_private == a[j].is_private by {
                    if i < a.len() {
                        assert(b[i] == a[i]);
                        if i != j {
                            if i < j {
                                assert(a[i].label@ != a[j].label@);
                            } else {
                                assert(a[j].label@ != a[i].label@);
                            }
                        }
                    }
                }
            }
        }
    }

    /// Makes `label` the active tab and says how the panels must change:
    /// the library panel is shown again when returning to the tab it is
    /// pinned to, and parked (not closed) when leaving it.
    pub fn activate(&mut self, label: &str) -> (r: Activation)
        ensures
            old(self).labels_ok() ==> privacy_kept(old(self).tabs@, final(self).tabs@),
            old(self).labels_ok() ==> final(self).labels_ok(),
            final(self).active@ == label@,
            r.previous@ == old(self).active@,
            r.shows_library == (old(self).library_tab matches Some(l) && l@ == label@),
            r.leaves_library == (!r.shows_library && (old(self).library_tab matches Some(l) && l@
                == old(self).active@)),
            r.hides_previous == (old(self).active@.len() > 0 && old(self).active@ != label@),
            final(self).tabs == old(self).tabs,
            final(self).next_id == old(self).next_id,
            final(self).library_tab == old(self).library_tab,
            final(self).library_view == old(self).library_view,
            final(self).closed_tabs == old(self).closed_tabs,
    {
        let mut new_active = String::new();
        push_str(&mut new_active, label);
        let mut previous = new_active;
        std::mem::swap(&mut self.active, &mut previous);
        let (is_lib, was_lib) = match &self.library_tab {
            Some(l) => (str_eq(l.as_str(), label), str_eq(l.as_str(), previous.as_str())),
            None => (false, false),
        };
        let hides_previous = !previous.as_str().is_empty() && !str_eq(previous.as_str(), label);
        Activation {
            previous,
            shows_library: is_lib,
            leaves_library: !is_lib && was_lib,
            hides_previous,
        }
    }

    /// Closes the tab labelled `label`: it leaves the strip, its URL is
    /// remembered for reopening (unless it is the home page or a private
    /// tab), and a library panel pinned to it is closed. Says which tab to
    /// show next: the one now at the closed tab's position (or the last)
    /// when the active tab was closed, else the active tab.
    pub fn close(&mut self, label: &str) -> (r: CloseOutcome)
        ensures
            old(self).labels_ok() ==> privacy_kept(old(self).tabs@, final(self).tabs@),
            old(self).labels_ok() ==> final(self).labels_ok(),
            final(self).tabs@ == tabs_after_close(old(self).tabs@, label@),
            string_views(final(self).closed_tabs@) == closed_after_close(
                old(self).tabs@,
                string_views(old(self).closed_tabs@),
                label@,
            ),
            r.closed_library == (old(self).library_tab matches Some(l) && l@ == label@),
            r.closed_library ==> final(self).library_tab is None,
            !r.closed_library ==> final(self).library_tab == old(self).library_tab,
            final(self).active == old(self).active,
            final(self).next_id == old(self).next_id,
            final(self).library_view == old(self).library_view,
            r.was_active == (old(self).active@ == label@),
            r.remaining_empty == (final(self).tabs@.len() == 0),
            r.was_active && !r.remaining_empty ==> (r.next_active matches Some(n) && {
                let i = match tab_index(old(self).tabs@, label@) {
                    Some(i) => i,
                    None => 0,
                };
                let last = final(self).tabs@.len() - 1;
                n@ == final(self).tabs@[if i < last { i } else { last }].label@
            }),
            !r.was_active ==> (r.next_active matches Some(n) && n@ == old(self).active@),
            r.was_active && r.remaining_empty ==> r.next_active is None,
            final(self).closed_tabs@.len() <= CLOSED_TABS_LIMIT || final(self).closed_tabs@.len()
                == old(self).closed_tabs@.len(),
    {
        let idx = self.find_tab(label);
        proof {
            lemma_tab_index(self.tabs@, label@);
        }
        match idx {
            Some(i) => {
                let closed_url = self.tabs[i].url.clone();
                let was_private = self.tabs[i].is_private;
                if !str_eq(closed_url.as_str(), HOME_URL) && !was_private {
                    let ghost before = self.closed_tabs@;
                    self.closed_tabs.push(closed_url);
                    assert(string_views(self.closed_tabs@) == string_views(before).push(
                        old(self).tabs@[i as int].url@,
                    ));
                    let ghost pushed = self.closed_tabs@;
                    crate::persist::drop_oldest(&mut self.closed_tabs, CLOSED_TABS_LIMIT);
                    assert(string_views(self.closed_tabs@) =~= keep_last(
                        string_views(pushed),
                        CLOSED_TABS_LIMIT as nat,
                    ));
                }
                self.tabs.remove(i);
            },
            None => {},
        }
        let closed_library = match &self.library_tab {
            Some(l) => str_eq(l.as_str(), label),
            None => false,
        };
        if closed_library {
            self.library_tab = None;
        }
        let was_active = str_eq(self.active.as_str(), label);
        let remaining_empty = self.tabs.len() == 0;
        let next_active = if was_active && !remaining_empty {
            let start = match idx {
                Some(i) => i,
                None => 0,
            };
            let new_idx = min_usize(start, self.tabs.len() - 1);
            Some(self.tabs[new_idx].label.clone())
        } else if !was_active {
            Some(self.active.clone())
        } else {
            None
        };
        CloseOutcome { was_active, remaining_empty, next_active, closed_library }
    }

    /// Takes the most recently closed tab's URL off the reopen list.
    pub fn pop_closed(&mut self) -> (r: Option<String>)
        ensures
            old(self).labels_ok() ==> privacy_kept(old(self).tabs@, final(self).tabs@),
            old(self).labels_ok() ==> final(self).labels_ok(),
            old(self).closed_tabs@.len() == 0 ==> r is None && final(self).closed_tabs@.len() == 0,
            old(self).closed_tabs@.len() > 0 ==> (r matches Some(u) && u == old(self).closed_tabs@.last())
                && final(self).closed_tabs@ == old(self).closed_tabs@.drop_last(),
            final(self).tabs == old(self).tabs,
            final(self).active == old(self).active,
            final(self).next_id == old(self).next_id,
            final(self).library_tab == old(self).library_tab,
            final(self).library_view == old(self).library_view,
    {
        self.closed_tabs.pop()
    }

    /// The label of the tab at `index`, or of the last tab when `index` is
    /// `None`; `None` when there is no such tab.
    pub fn label_at(&self, index: Option<usize>) -> (r: Option<String>)
        ensures
            match index {
                Some(i) => if i < self.tabs@.len() {
                    r matches Some(l) && l@ == self.tabs@[i as int].label@
                } else {
                    r is None
                },
                None => if self.tabs@.len() > 0 {
                    r matches Some(l) && l@ == self.tabs@.last().label@
                } else {
                    r is None
                },
            },
    {
        match index {
            Some(i) => {
                if i < self.tabs.len() {
                    Some(self.tabs[i].label.clone())
                } else {
                    None
                }
            },
            None => {
                if self.tabs.len() > 0 {
                    Some(self.tabs[self.tabs.len() - 1].label.clone())
                } else {
                    None
                }
            },
        }
    }

    /// The label of the tab after (or, going back, before) the active one,
    /// wrapping around at either end; counted from the first tab when the
    /// active one is not found. `None` when there are no tabs.
    pub fn cycle_target(&self, forward: bool) -> (r: Option<String>)
        ensures
            self.tabs@.len() == 0 ==> r is None,
            self.tabs@.len() > 0 ==> (r matches Some(l) && {
                let n = self.tabs@.len() as int;
                let cur = match tab_index(self.tabs@, self.active@) {
                    Some(i) => i,
                    None => 0,
                };
                let next = if forward {
                    (cur + 1) % n
                } else {
                    (cur + n - 1) % n
                };
                l@ == self.tabs@[next].label@
            }),
    {
        if self.tabs.len() == 0 {
            return None;
        }
        let cur = match self.find_tab(self.active.as_str()) {
            Some(i) => i,
            None => 0,
        };
        proof {
            lemma_tab_index(self.tabs@, self.active@);
        }
        let len = self.tabs.len();
        let next = if forward {
            (cur + 1) % len
        } else if cur == 0 {
            len - 1
        } else {
            cur - 1
        };
        proof {
            let n = len as int;
            let c = cur as int;
            if !forward {
                if c == 0 {
                    assert((c + n - 1) % n == n - 1) by (nonlinear_arith)
                        requires
                            c == 0,
                            n > 0,
                    ;
                } else {
                    assert((c + n - 1) % n == c - 1) by (nonlinear_arith)
                        requires
                            0 < c < n,
                    ;
                }
            }
        }
        Some(self.tabs[next].label.clone())
    }

    /// Puts the tab `new_label` where the tab `old_label` stood and drops the
    /// old one (going Home or to the crash page in place). With
    /// `crash_restore`, the new tab takes over the given URL and title and is
    /// marked crashed. Nothing changes unless both tabs are found.
    #[verifier::rlimit(40)]
    #[verifier::spinoff_prover]
    pub fn replace_tab(&mut self, old_label: &str, new_label: &str, crash_restore: Option<(String, String)>) -> (replaced: bool)
        requires
            match (tab_index(old(self).tabs@, old_label@), tab_index(old(self).tabs@, new_label@)) {
                (Some(o), Some(n)) => o < old(self).tabs@.len() - 1,
                _ => true,
            },
        ensures
            old(self).labels_ok() ==> privacy_kept(old(self).tabs@, final(self).tabs@),
            old(self).labels_ok() ==> final(self).labels_ok(),
            replaced == (tab_index(old(self).tabs@, old_label@) is Some && tab_index(old(self).tabs@, new_label@) is Some),
            !replaced ==> final(self).tabs == old(self).tabs,
            replaced ==> {
                let o = tab_index(old(self).tabs@, old_label@)->0;
                let n = tab_index(old(self).tabs@, new_label@)->0;
                let moved = old(self).tabs@[n];
                let removed = old(self).tabs@.remove(n);
                &&& final(self).tabs@.len() == removed.len()
                &&& forall|j: int| 0 <= j < removed.len() && j != o ==> final(self).tabs@[j] == removed[j]
                &&& {
                    let t = final(self).tabs@[o];
                    match crash_restore {
                        Some((u, ti)) => t.label == moved.label && t.url@ == u@ && t.title@ == ti@
                            && t.crashed && t.zoom_level == moved.zoom_level && t.favicon == moved.favicon
                            && t.is_private == moved.is_private && t.blocked_count == moved.blocked_count
                            && t.site_allowlisted == moved.site_allowlisted,
                        None => t == moved,
                    }
                }
            },
            same_except_tabs(*final(self), *old(self)),
    {
        let len = self.tabs.len();
        let oi = self.find_tab(old_label);
        let ni = self.find_tab(new_label);
        proof {
            lemma_tab_index(self.tabs@, old_label@);
            lemma_tab_index(self.tabs@, new_label@);
        }
        match (oi, ni) {
            (Some(o), Some(n)) => {
                let ghost removed = self.tabs@.remove(n as int);
                let mut t = self.tabs.remove(n);
                match crash_restore {
                    Some((u, ti)) => {
                        t.url = u;
                        t.title = ti;
                        t.crashed = true;
                    },
                    None => {},
                }
                self.tabs.insert(o, t);
                self.tabs.remove(o + 1);
                true
            },
            _ => false,
        }
    }

    /// A tab's page changed to the raw URL `raw_url`. A real page (anything
    /// but the crash-recovery page) becomes the tab's URL — the bundled
    /// home page shown as `kite://home` — its blocked count restarts and its
    /// site is checked against `allowlist`; the crash page only marks the
    /// tab crashed and keeps its last real URL. Says what to do next: hand
    /// the crash page its URL, hand the home page the search engine, or
    /// record the visit unless the tab is private.
    pub fn on_navigation(&mut self, label: &str, raw_url: &str, allowlist: &[String]) -> (r: NavigationOutcome)
        ensures
            old(self).labels_ok() ==> privacy_kept(old(self).tabs@, final(self).tabs@),
            old(self).labels_ok() ==> final(self).labels_ok(),
            r.is_active == (old(self).active@ == label@),
            same_except_tabs(*final(self), *old(self)),
            match tab_index(old(self).tabs@, label@) {
                Some(i) => {
                    let t = old(self).tabs@[i];
                    let n = final(self).tabs@[i];
                    &&& final(self).tabs@.len() == old(self).tabs@.len()
                    &&& forall|j: int| 0 <= j < old(self).tabs@.len() && j != i ==> final(self).tabs@[j] == old(self).tabs@[j]
                    &&& n.crashed == is_crash_asset(raw_url@)
                    &&& n.label == t.label && n.title == t.title && n.zoom_level == t.zoom_level
                    &&& n.favicon == t.favicon && n.is_private == t.is_private
                    &&& if is_crash_asset(raw_url@) {
                        n.url == t.url && n.blocked_count == t.blocked_count && n.site_allowlisted == t.site_allowlisted
                    } else {
                        n.url@ == display_url(raw_url@) && n.blocked_count == 0 && n.site_allowlisted == site_allowed(
                            display_url(raw_url@),
                            string_views(allowlist@),
                        )
                    }
                },
                None => final(self).tabs == old(self).tabs,
            },
            ({
                let private = match tab_index(old(self).tabs@, label@) {
                    Some(i) => old(self).tabs@[i].is_private,
                    None => false,
                };
                if is_crash_asset(raw_url@) {
                    r.action is PushCrashedUrl
                } else if display_url(raw_url@) == HOME_URL@ {
                    r.action is PushSearchEngine
                } else if !private {
                    r.action matches PageAction::RecordVisit(u) && u@ == display_url(raw_url@)
                } else {
                    r.action is Nothing
                }
            }),
    {
        let is_crash_page = is_crashed_asset_url(raw_url);
        let mut display = String::new();
        if is_home_asset_url(raw_url) {
            push_str(&mut display, HOME_URL);
        } else {
            push_str(&mut display, raw_url);
        }
        let idx = self.find_tab(label);
        proof {
            lemma_tab_index(self.tabs@, label@);
        }
        let mut private = false;
        match idx {
            Some(i) => {
                let mut t = self.tabs.remove(i);
                t.crashed = is_crash_page;
                if !is_crash_page {
                    t.url = display.clone();
                    t.blocked_count = 0;
                    t.site_allowlisted = match parse_url_host(display.as_str()) {
                        Some(h) => host_matches_allowlist(h.as_str(), allowlist),
                        None => false,
                    };
                }
                private = t.is_private;
                self.tabs.insert(i, t);
                assert(forall|j: int| 0 <= j < old(self).tabs@.len() && j != i ==> self.tabs@[j] == old(self).tabs@[j]);
            },
            None => {},
        }
        let is_active = str_eq(self.active.as_str(), label);
        let action = if is_crash_page {
            PageAction::PushCrashedUrl
        } else if str_eq(display.as_str(), HOME_URL) {
            PageAction::PushSearchEngine
        } else if !private {
            PageAction::RecordVisit(display)
        } else {
            PageAction::Nothing
        };
        NavigationOutcome { is_active, action }
    }

    /// A tab's document title changed. The title is kept unless the tab
    /// shows the home page or the crash page; says what to do next: hand
    /// the crash page its URL, hand the home page the search engine, or
    /// give the history entry the title unless the tab is private.
    pub fn on_title_changed(&mut self, label: &str, title: String) -> (r: PageAction)
        ensures
            old(self).labels_ok() ==> privacy_kept(old(self).tabs@, final(self).tabs@),
            old(self).labels_ok() ==> final(self).labels_ok(),
            same_except_tabs(*final(self), *old(self)),
            match tab_index(old(self).tabs@, label@) {
                Some(i) => {
                    let t = old(self).tabs@[i];
                    let keeps = t.url@ != HOME_URL@ && !t.crashed;
                    &&& final(self).tabs@.len() == old(self).tabs@.len()
                    &&& forall|j: int| 0 <= j < old(self).tabs@.len() && j != i ==> final(self).tabs@[j] == old(self).tabs@[j]
                    &&& keeps ==> final(self).tabs@[i].title@ == title@
                    &&& !keeps ==> final(self).tabs@[i].title == t.title
                    &&& final(self).tabs@[i].label == t.label && final(self).tabs@[i].url == t.url
                    &&& final(self).tabs@[i].zoom_level == t.zoom_level && final(self).tabs@[i].crashed == t.crashed
                    &&& final(self).tabs@[i].favicon == t.favicon && final(self).tabs@[i].is_private == t.is_private
                    &&& final(self).tabs@[i].blocked_count == t.blocked_count
                    &&& final(self).tabs@[i].site_allowlisted == t.site_allowlisted
                    &&& if t.crashed {
                        r is PushCrashedUrl
                    } else if t.url@ == HOME_URL@ {
                        r is PushSearchEngine
                    } else if !t.is_private {
                        r matches PageAction::UpdateHistoryTitle(u, ti) && u@ == t.url@ && ti@ == title@
                    } else {
                        r is Nothing
                    }
                },
                None => final(self).tabs == old(self).tabs && r is Nothing,
            },
    {
        let idx = self.find_tab(label);
        proof {
            lemma_tab_index(self.tabs@, label@);
        }
        match idx {
            Some(i) => {
                let mut t = self.tabs.remove(i);
                let is_home = str_eq(t.url.as_str(), HOME_URL);
                let crashed = t.crashed;
                let private = t.is_private;
                let url = t.url.clone();
                let action = if crashed {
                    PageAction::PushCrashedUrl
                } else if is_home {
                    PageAction::PushSearchEngine
                } else if !private {
                    PageAction::UpdateHistoryTitle(url, title.clone())
                } else {
                    PageAction::Nothing
                };
                if !is_home && !crashed {
                    t.title = title;
                }
                self.tabs.insert(i, t);
                assert(forall|j: int| 0 <= j < old(self).tabs@.len() && j != i ==> self.tabs@[j] == old(self).tabs@[j]);
                action
            },
            None => PageAction::Nothing,
        }
    }

    /// One more request was blocked in the tab `label`; returns whether
    /// the tab exists.
    pub fn increment_blocked(&mut self, label: &str) -> (found: bool)
        requires
            match tab_index(old(self).tabs@, label@) {
                Some(i) => old(self).tabs@[i].blocked_count < u32::MAX,
                None => true,
            },
        ensures
            old(self).labels_ok() ==> privacy_kept(old(self).tabs@, final(self).tabs@),
            old(self).labels_ok() ==> final(self).labels_ok(),
            same_except_tabs(*final(self), *old(self)),
            found == tab_index(old(self).tabs@, label@) is Some,
            match tab_index(old(self).tabs@, label@) {
                Some(i) => {
                    let t = old(self).tabs@[i];
                    &&& final(self).tabs@.len() == old(self).tabs@.len()
                    &&& forall|j: int| 0 <= j < old(self).tabs@.len() && j != i ==> final(self).tabs@[j] == old(self).tabs@[j]
                    &&& final(self).tabs@[i] == TabInfo { blocked_count: (t.blocked_count + 1) as u32, ..t }
                },
                None => final(self).tabs == old(self).tabs,
            },
    {
        let idx = self.find_tab(label);
        proof {
            lemma_tab_index(self.tabs@, label@);
        }
        match idx {
            Some(i) => {
                let mut t = self.tabs.remove(i);
                t.blocked_count = t.blocked_count + 1;
                self.tabs.insert(i, t);
                assert(forall|j: int| 0 <= j < old(self).tabs@.len() && j != i ==> self.tabs@[j] == old(self).tabs@[j]);
                true
            },
            None => false,
        }
    }

    /// The blocked count of the tab `label`, if it exists.
    pub fn blocked_count_of(&self, label: &str) -> (r: Option<u32>)
        ensures
            match tab_index(self.tabs@, label@) {
                Some(i) => r == Some(self.tabs@[i].blocked_count),
                None => r is None,
            },
    {
        let idx = self.find_tab(label);
        proof {
            lemma_tab_index(self.tabs@, label@);
        }
        match idx {
            Some(i) => Some(self.tabs[i].blocked_count),
            None => None,
        }
    }

    /// Gives the tab `label` its fetched favicon. Returns `None` when the
    /// tab is gone, else the page URL to store the favicon under on disk
    /// (`None` inside for a private tab, whose favicon is not kept).
    pub fn apply_favicon(&mut self, label: &str, data_url: String) -> (r: Option<Option<String>>)
        ensures
            old(self).labels_ok() ==> privacy_kept(old(self).tabs@, final(self).tabs@),
            old(self).labels_ok() ==> final(self).labels_ok(),
            same_except_tabs(*final(self), *old(self)),
            match tab_index(old(self).tabs@, label@) {
                Some(i) => {
                    let t = old(self).tabs@[i];
                    &&& final(self).tabs@.len() == old(self).tabs@.len()
                    &&& forall|j: int| 0 <= j < old(self).tabs@.len() && j != i ==> final(self).tabs@[j] == old(self).tabs@[j]
                    &&& (final(self).tabs@[i].favicon matches Some(f) && f@ == data_url@)
                    &&& final(self).tabs@[i] == TabInfo { favicon: final(self).tabs@[i].favicon, ..t }
                    &&& if t.is_private {
                        r == Some(None::<String>)
                    } else {
                        r matches Some(Some(u)) && u@ == t.url@
                    }
                },
                None => final(self).tabs == old(self).tabs && r is None,
            },
    {
        let idx = self.find_tab(label);
        proof {
            lemma_tab_index(self.tabs@, label@);
        }
        match idx {
            Some(i) => {
                let mut t = self.tabs.remove(i);
                t.favicon = Some(data_url);
                let persist = if t.is_private {
                    None
                } else {
                    Some(t.url.clone())
                };
                self.tabs.insert(i, t);
                assert(forall|j: int| 0 <= j < old(self).tabs@.len() && j != i ==> self.tabs@[j] == old(self).tabs@[j]);
                Some(persist)
            },
            None => None,
        }
    }

    /// The session to save: the URLs of the tabs that are not private, in
    /// order, and the active tab's position among them (0 when the active
    /// tab is private or there is none).
    pub fn session_snapshot(&self) -> (r: SessionState)
        ensures
            session_urls(r.tabs@) == tab_urls(public_tabs(self.tabs@)),
            r.active_index == match tab_index(public_tabs(self.tabs@), self.active@) {
                Some(i) => i,
                None => 0,
            },
    {
        let mut out: Vec<SessionTab> = Vec::new();
        let mut active_index: Option<usize> = None;
        let mut i: usize = 0;
        let ghost pred = |t: TabInfo| !t.is_private;
        while i < self.tabs.len()
            invariant
                i <= self.tabs@.len(),
                pred == (|t: TabInfo| !t.is_private),
                session_urls(out@) == tab_urls(self.tabs@.take(i as int).filter(pred)),
                out@.len() == self.tabs@.take(i as int).filter(pred).len(),
                match active_index {
                    Some(k) => tab_index(self.tabs@.take(i as int).filter(pred), self.active@) == Some(k as int),
                    None => tab_index(self.tabs@.take(i as int).filter(pred), self.active@) is None,
                },
            decreases self.tabs@.len() - i,
        {
            let ghost before = self.tabs@.take(i as int).filter(pred);
            proof {
                assert(self.tabs@.take(i as int + 1) =~= self.tabs@.take(i as int).push(self.tabs@[i as int]));
                self.tabs@.take(i as int).lemma_filter_push(self.tabs@[i as int], pred);
            }
            let t = &self.tabs[i];
            if !t.is_private {
                proof {
                    lemma_tab_index_push(before, self.tabs@[i as int], self.active@);
                }
                if active_index.is_none() && str_eq(t.label.as_str(), self.active.as_str()) {
                    active_index = Some(out.len());
                }
                let ghost old_out = out@;
                let u = t.url.clone();
                out.push(SessionTab { url: u });
                proof {
                    assert(out@ == old_out.push(SessionTab { url: u }));
                    assert(u@ == self.tabs@[i as int].url@);
                    assert(session_urls(old_out) == tab_urls(before));
                    assert(session_urls(out@) =~= tab_urls(before.push(self.tabs@[i as int]))) by {
                        assert forall|k: int| 0 <= k < out@.len() implies #[trigger] session_urls(out@)[k] == tab_urls(before.push(self.tabs@[i as int]))[k] by {
                            if k < old_out.len() {
                                assert(session_urls(old_out)[k] == tab_urls(before)[k]);
                            }
                        }
                    }
                }
            }
            i = i + 1;
        }
        proof {
            assert(self.tabs@.take(self.tabs@.len() as int) =~= self.tabs@);
        }
        let idx = match active_index {
            Some(k) => k,
            None => 0,
        };
        SessionState { tabs: out, active_index: idx }
    }

    /// Pins the library panel to the active tab (unpinning it from any
    /// other); returns that tab's label.
    pub fn show_library(&mut self) -> (r: String)
        ensures
            old(self).labels_ok() ==> privacy_kept(old(self).tabs@, final(self).tabs@),
            old(self).labels_ok() ==> final(self).labels_ok(),
            r@ == old(self).active@,
            final(self).library_tab matches Some(l) && l@ == old(self).active@,
            final(self).tabs == old(self).tabs && final(self).active == old(self).active
                && final(self).library_view == old(self).library_view
                && final(self).closed_tabs == old(self).closed_tabs && final(self).next_id == old(self).next_id,
    {
        self.library_tab = Some(self.active.clone());
        self.active.clone()
    }

    /// Closes the library panel for good (switching tabs only hides it).
    pub fn hide_library(&mut self)
        ensures
            old(self).labels_ok() ==> privacy_kept(old(self).tabs@, final(self).tabs@),
            old(self).labels_ok() ==> final(self).labels_ok(),
            final(self).library_tab is None,
            final(self).tabs == old(self).tabs && final(self).active == old(self).active
                && final(self).library_view == old(self).library_view
                && final(self).closed_tabs == old(self).closed_tabs && final(self).next_id == old(self).next_id,
    {
        self.library_tab = None;
    }

    /// What the address bar shows: `kite://<view>` while the library is
    /// pinned to the active tab, else the active tab's URL (`None` with no
    /// active tab).
    pub fn active_display_url(&self) -> (r: Option<String>)
        ensures
            match r {
                Some(u) => u@ == displayed_address(*self).unwrap(),
                None => displayed_address(*self) is None,
            },
    {
        let pinned = match &self.library_tab {
            Some(l) => str_eq(l.as_str(), self.active.as_str()),
            None => false,
        };
        if pinned {
            let mut u = String::new();
            push_str(&mut u, "kite://");
            push_str(&mut u, self.library_view.as_str());
            return Some(u);
        }
        let idx = self.find_tab(self.active.as_str());
        proof {
            lemma_tab_index(self.tabs@, self.active@);
        }
        match idx {
            Some(i) => Some(self.tabs[i].url.clone()),
            None => None,
        }
    }

    /// Whether a resource request of the tab `label` for `uri` is blocked:
    /// content blocking is on, the tab's site is not allowlisted, the URI
    /// has a host, that host is not the browser's own (`ipc.localhost`,
    /// `127.0.0.1`, `tauri.localhost`, `localhost`), and `list` blocks it.
    pub fn should_block_request(&self, content_blocking_enabled: bool, label: &str, list: &HostSet, uri: &str) -> (r: bool)
        requires
            list.wf(),
        ensures
            r == (content_blocking_enabled && !site_allowlisted_of(self.tabs@, label@) && match url_host(uri@) {
                Some(h) => !is_internal_host(h) && blocked_in(list@, lowercase(h)),
                None => false,
            }),
    {
        if !content_blocking_enabled {
            return false;
        }
        let idx = self.find_tab(label);
        proof {
            lemma_tab_index(self.tabs@, label@);
        }
        let allowlisted = match idx {
            Some(i) => self.tabs[i].site_allowlisted,
            None => false,
        };
        if allowlisted {
            return false;
        }
        let host = match parse_url_host(uri) {
            Some(h) => h,
            None => {
                return false;
            },
        };
        let hs = host.as_str();
        let internal = str_eq(hs, "ipc.localhost") || str_eq(hs, "127.0.0.1") || str_eq(hs, "tauri.localhost")
            || str_eq(hs, "localhost");
        !internal && is_blocked_host(list, hs)
    }

    /// Whether a favicon reported by the tab `label` is worth fetching: the
    /// tab exists and shows neither the home page nor the crash page.
    pub fn should_process_favicon(&self, label: &str) -> (r: bool)
        ensures
            r == match tab_index(self.tabs@, label@) {
                Some(i) => self.tabs@[i].url@ != HOME_URL@ && !self.tabs@[i].crashed,
                None => false,
            },
    {
        let idx = self.find_tab(label);
        proof {
            lemma_tab_index(self.tabs@, label@);
        }
        match idx {
            Some(i) => !str_eq(self.tabs[i].url.as_str(), HOME_URL) && !self.tabs[i].crashed,
            None => false,
        }
    }

    /// Recomputes every tab's allowlisted flag against `allowlist` (after
    /// it changed): a tab's site is allowlisted when its URL's host,
    /// lower-cased, matches an entry.
    pub fn refresh_site_allowlisted(&mut self, allowlist: &[String])
        ensures
            old(self).labels_ok() ==> privacy_kept(old(self).tabs@, final(self).tabs@),
            old(self).labels_ok() ==> final(self).labels_ok(),
            same_except_tabs(*final(self), *old(self)),
            final(self).tabs@.len() == old(self).tabs@.len(),
            forall|i: int|
                0 <= i < old(self).tabs@.len() ==> #[trigger] final(self).tabs@[i] == refreshed_tab(
                    old(self).tabs@[i],
                    string_views(allowlist@),
                ),
    {
        let n = self.tabs.len();
        let mut i: usize = 0;
        while i < n
            invariant
                n == old(self).tabs@.len(),
                i <= n,
                self.tabs@.len() == n,
                same_except_tabs(*self, *old(self)),
                forall|k: int|
                    0 <= k < i ==> #[trigger] self.tabs@[k] == refreshed_tab(
                        old(self).tabs@[k],
                        string_views(allowlist@),
                    ),
                forall|k: int| i <= k < n ==> #[trigger] self.tabs@[k] == old(self).tabs@[k],
            decreases n - i,
        {
            let mut t = self.tabs.remove(i);
            let flag = match parse_url_host(t.url.as_str()) {
                Some(h) => {
                    let lh = to_lowercase(h.as_str());
                    host_matches_allowlist(lh.as_str(), allowlist)
                },
                None => false,
            };
            assert(allowlist@.map_values(|s: String| s@) == string_views(allowlist@));
            t.site_allowlisted = flag;
            self.tabs.insert(i, t);
            i = i + 1;
        }
    }

    /// The lower-cased host of the active tab's site, for toggling its
    /// allowlisting; an error when the active tab has none.
    pub fn active_site_host(&self) -> (r: Result<String, String>)
        ensures
            match active_host(*self) {
                Some(h) => r matches Ok(x) && x@ == h,
                None => r matches Err(e) && e@ == "active tab has no site to toggle"@,
            },
    {
        let idx = self.find_tab(self.active.as_str());
        proof {
            lemma_tab_index(self.tabs@, self.active@);
        }
        let host = match idx {
            Some(i) => parse_url_host(self.tabs[i].url.as_str()),
            None => None,
        };
        match host {
            Some(h) => Ok(to_lowercase(h.as_str())),
            None => Err("active tab has no site to toggle".to_owned()),
        }
    }

    /// Shows the library view `view` (`history`, `bookmarks`, ...).
    pub fn set_library_view(&mut self, view: &str)
        ensures
            old(self).labels_ok() ==> privacy_kept(old(self).tabs@, final(self).tabs@),
            old(self).labels_ok() ==> final(self).labels_ok(),
            final(self).library_view@ == view@,
            final(self).tabs == old(self).tabs && final(self).active == old(self).active
                && final(self).library_tab == old(self).library_tab
                && final(self).closed_tabs == old(self).closed_tabs && final(self).next_id == old(self).next_id,
    {
        self.library_view = view.to_owned();
    }

    /// Whether the tab `label` is private (a tab that is gone is not).
    pub fn is_private_tab(&self, label: &str) -> (r: bool)
        ensures
            r == match tab_index(self.tabs@, label@) {
                Some(i) => self.tabs@[i].is_private,
                None => false,
            },
    {
        let idx = self.find_tab(label);
        proof {
            lemma_tab_index(self.tabs@, label@);
        }
        match idx {
            Some(i) => self.tabs[i].is_private,
            None => false,
        }
    }

    /// What the crash page replacing the tab `label` keeps of it: its URL,
    /// title and privacy (`None` when the tab is already gone).
    pub fn crash_source(&self, label: &str) -> (r: Option<(String, String, bool)>)
        ensures
            match tab_index(self.tabs@, label@) {
                Some(i) => r matches Some((u, t, p)) && u@ == self.tabs@[i].url@ && t@
                    == self.tabs@[i].title@ && p == self.tabs@[i].is_private,
                None => r is None,
            },
    {
        let idx = self.find_tab(label);
        proof {
            lemma_tab_index(self.tabs@, label@);
        }
        match idx {
            Some(i) => Some((self.tabs[i].url.clone(), self.tabs[i].title.clone(), self.tabs[i].is_private)),
            None => None,
        }
    }

    /// The tab Home replaces: the active tab's label and whether it is
    /// private; `no active tab` before any tab exists.
    pub fn home_source(&self) -> (r: Result<(String, bool), String>)
        ensures
            self.active@.len() == 0 ==> (r matches Err(e) && e@ == "no active tab"@),
            self.active@.len() > 0 ==> (r matches Ok((l, p)) && l@ == self.active@ && p == match tab_index(
                self.tabs@,
                self.active@,
            ) {
                Some(i) => self.tabs@[i].is_private,
                None => false,
            }),
    {
        if self.active.as_str().is_empty() {
            return Err("no active tab".to_owned());
        }
        let p = self.is_private_tab(self.active.as_str());
        Ok((self.active.clone(), p))
    }

    /// The labels of the tabs showing the home page, in order.
    pub fn home_tab_labels(&self) -> (r: Vec<String>)
        ensures
            r@.map_values(|s: String| s@) == self.tabs@.filter(|t: TabInfo| t.url@ == HOME_URL@).map_values(
                |t: TabInfo| t.label@,
            ),
    {
        let mut out: Vec<String> = Vec::new();
        let mut i: usize = 0;
        let ghost pred = |t: TabInfo| t.url@ == HOME_URL@;
        while i < self.tabs.len()
            invariant
                i <= self.tabs@.len(),
                pred == (|t: TabInfo| t.url@ == HOME_URL@),
                out@.map_values(|s: String| s@) == self.tabs@.take(i as int).filter(pred).map_values(
                    |t: TabInfo| t.label@,
                ),
            decreases self.tabs@.len() - i,
        {
            proof {
                assert(self.tabs@.take(i as int + 1) =~= self.tabs@.take(i as int).push(self.tabs@[i as int]));
                self.tabs@.take(i as int).lemma_filter_push(self.tabs@[i as int], pred);
            }
            let ghost before = out@;
            if str_eq(self.tabs[i].url.as_str(), HOME_URL) {
                out.push(self.tabs[i].label.clone());
                proof {
                    assert(out@.map_values(|s: String| s@) =~= before.map_values(|s: String| s@).push(
                        self.tabs@[i as int].label@,
                    ));
                    assert(self.tabs@.take(i as int).filter(pred).push(self.tabs@[i as int]).map_values(
                        |t: TabInfo| t.label@,
                    ) =~= self.tabs@.take(i as int).filter(pred).map_values(|t: TabInfo| t.label@).push(
                        self.tabs@[i as int].label@,
                    ));
                }
            }
            i = i + 1;
        }
        proof {
            assert(self.tabs@.take(self.tabs@.len() as int) =~= self.tabs@);
        }
        out
    }

    /// The host a login report from the tab `label` can be trusted for:
    /// the lower-cased host of the tab's own current URL, unless the tab is
    /// private or crashed (or gone, or its URL has no host).
    pub fn eligible_tab_host(&self, label: &str) -> (r: Option<String>)
        ensures
            match r {
                Some(h) => eligible_host(self.tabs@, label@) == Some(h@),
                None => eligible_host(self.tabs@, label@) is None,
            },
    {
        let idx = self.find_tab(label);
        proof {
            lemma_tab_index(self.tabs@, label@);
        }
        match idx {
            Some(i) => {
                let t = &self.tabs[i];
                if t.is_private || t.crashed {
                    return None;
                }
                match parse_url_host(t.url.as_str()) {
                    Some(h) => Some(to_lowercase(h.as_str())),
                    None => None,
                }
            },
            None => None,
        }
    }

    /// The active tab's zoom step (100% when there is no active tab).
    pub fn active_zoom_level(&self) -> (r: usize)
        ensures
            r == match tab_index(self.tabs@, self.active@) {
                Some(i) => self.tabs@[i].zoom_level,
                None => DEFAULT_ZOOM_LEVEL,
            },
    {
        let idx = self.find_tab(self.active.as_str());
        proof {
            lemma_tab_index(self.tabs@, self.active@);
        }
        match idx {
            Some(i) => self.tabs[i].zoom_level,
            None => DEFAULT_ZOOM_LEVEL,
        }
    }

    /// Sets the active tab's zoom step.
    pub fn set_active_zoom(&mut self, level: usize)
        ensures
            old(self).labels_ok() ==> privacy_kept(old(self).tabs@, final(self).tabs@),
            old(self).labels_ok() ==> final(self).labels_ok(),
            same_except_tabs(*final(self), *old(self)),
            match tab_index(old(self).tabs@, old(self).active@) {
                Some(i) => {
                    let t = old(self).tabs@[i];
                    &&& final(self).tabs@.len() == old(self).tabs@.len()
                    &&& forall|j: int| 0 <= j < old(self).tabs@.len() && j != i ==> final(self).tabs@[j] == old(self).tabs@[j]
                    &&& final(self).tabs@[i] == TabInfo { zoom_level: level, ..t }
                },
                None => final(self).tabs == old(self).tabs,
            },
    {
        let idx = self.find_tab(self.active.as_str());
        proof {
            lemma_tab_index(self.tabs@, self.active@);
        }
        match idx {
            Some(i) => {
                let mut t = self.tabs.remove(i);
                t.zoom_level = level;
                self.tabs.insert(i, t);
                assert(forall|j: int| 0 <= j < old(self).tabs@.len() && j != i ==> self.tabs@[j] == old(self).tabs@[j]);
            },
            None => {},
        }
    }

    /// Zooms the active tab in one step; returns its new step.
    pub fn zoom_in(&mut self) -> (r: usize)
        ensures
            old(self).labels_ok() ==> privacy_kept(old(self).tabs@, final(self).tabs@),
            old(self).labels_ok() ==> final(self).labels_ok(),
            r == zoom_in_level(old(self).active_zoom_spec() as nat),
            final(self).active_zoom_spec() == r || tab_index(old(self).tabs@, old(self).active@) is None,
            same_except_tabs(*final(self), *old(self)),
    {
        let next = zoom_in_step(self.active_zoom_level());
        self.set_active_zoom(next);
        proof {
            self.lemma_zoom_after_set(*old(self), next);
        }
        next
    }

    /// Zooms the active tab out one step; returns its new step.
    pub fn zoom_out(&mut self) -> (r: usize)
        ensures
            old(self).labels_ok() ==> privacy_kept(old(self).tabs@, final(self).tabs@),
            old(self).labels_ok() ==> final(self).labels_ok(),
            r == zoom_out_level(old(self).active_zoom_spec() as nat),
            final(self).active_zoom_spec() == r || tab_index(old(self).tabs@, old(self).active@) is None,
            same_except_tabs(*final(self), *old(self)),
    {
        let next = zoom_out_step(self.active_zoom_level());
        self.set_active_zoom(next);
        proof {
            self.lemma_zoom_after_set(*old(self), next);
        }
        next
    }

    /// Resets the active tab to 100%; returns that step.
    pub fn zoom_reset(&mut self) -> (r: usize)
        ensures
            old(self).labels_ok() ==> privacy_kept(old(self).tabs@, final(self).tabs@),
            old(self).labels_ok() ==> final(self).labels_ok(),
            r == DEFAULT_ZOOM_LEVEL,
            final(self).active_zoom_spec() == r,
            same_except_tabs(*final(self), *old(self)),
    {
        self.set_active_zoom(DEFAULT_ZOOM_LEVEL);
        proof {
            self.lemma_zoom_after_set(*old(self), DEFAULT_ZOOM_LEVEL);
        }
        DEFAULT_ZOOM_LEVEL
    }

    /// The active tab's zoom step, as `active_zoom_level` returns it.
    pub open spec fn active_zoom_spec(&self) -> usize {
        match tab_index(self.tabs@, self.active@) {
            Some(i) => self.tabs@[i].zoom_level,
            None => DEFAULT_ZOOM_LEVEL,
        }
    }

    proof fn lemma_zoom_after_set(&self, before: TabState, level: usize)
        requires
            same_except_tabs(*self, before),
            match tab_index(before.tabs@, before.active@) {
                Some(i) => {
                    let t = before.tabs@[i];
                    &&& self.tabs@.len() == before.tabs@.len()
                    &&& forall|j: int| 0 <= j < before.tabs@.len() && j != i ==> self.tabs@[j] == before.tabs@[j]
                    &&& self.tabs@[i] == TabInfo { zoom_level: level, ..t }
                },
                None => self.tabs == before.tabs,
            },
        ensures
            tab_index(before.tabs@, before.active@) is Some ==> self.active_zoom_spec() == level,
            tab_index(before.tabs@, before.active@) is None ==> self.active_zoom_spec() == DEFAULT_ZOOM_LEVEL,
    {
        lemma_tab_index(before.tabs@, before.active@);
        lemma_tab_index(self.tabs@, self.active@);
        if let Some(i) = tab_index(before.tabs@, before.active@) {
            match tab_index(self.tabs@, self.active@) {
                Some(k) => {
                    if k < i {
                        assert(self.tabs@[k] == before.tabs@[k]);
                    } else if k > i {
                        assert(self.tabs@[i].label == before.tabs@[i].label);
                    }
                },
                None => {
                    assert(self.tabs@[i].label == before.tabs@[i].label);
                },
            }
        }
    }
}

/// The bundled home page, whatever address the platform gave it.
pub open spec fn is_home_asset(raw: Seq<char>) -> bool {
    crate::text::has_suffix(raw, "home.html"@) || crate::text::has_suffix(raw, "home.html/"@)
}

/// The bundled crash-recovery page.
pub open spec fn is_crash_asset(raw: Seq<char>) -> bool {
    crate::text::has_suffix(raw, "crashed.html"@) || crate::text::has_suffix(raw, "crashed.html/"@)
}

/// The URL a tab shows for a navigated-to raw URL.
pub open spec fn display_url(raw: Seq<char>) -> Seq<char> {
    if is_home_asset(raw) {
        HOME_URL@
    } else {
        raw
    }
}

/// `tab_index` after appending a tab.
pub proof fn lemma_tab_index_push(tabs: Seq<TabInfo>, t: TabInfo, label: Seq<char>)
    ensures
        tab_index(tabs.push(t), label) == match tab_index(tabs, label) {
            Some(i) => Some(i),
            None => if t.label@ == label {
                Some(tabs.len() as int)
            } else {
                None
            },
        },
    decreases tabs.len(),
{
    if tabs.len() > 0 {
        assert(tabs.push(t)[0] == tabs[0]);
        assert(tabs.push(t).drop_first() =~= tabs.drop_first().push(t));
        lemma_tab_index_push(tabs.drop_first(), t, label);
    } else {
        assert(tabs.push(t)[0] == t);
        assert(tabs.push(t).drop_first() =~= Seq::<TabInfo>::empty());
        assert(tab_index(Seq::<TabInfo>::empty(), label) is None);
    }
}

/// The tab with its allowlisted flag recomputed against `allowlist`.
pub open spec fn refreshed_tab(t: TabInfo, allowlist: Seq<Seq<char>>) -> TabInfo {
    TabInfo {
        site_allowlisted: match url_host(t.url@) {
            Some(h) => matches_allowlist(lowercase(h), allowlist),
            None => false,
        },
        ..t
    }
}

/// The lower-cased host of the active tab's URL.
pub open spec fn active_host(st: TabState) -> Option<Seq<char>> {
    match tab_index(st.tabs@, st.active@) {
        Some(i) => match url_host(st.tabs@[i].url@) {
            Some(h) => Some(lowercase(h)),
            None => None,
        },
        None => None,
    }
}

/// What the address bar shows for the state (see `active_display_url`).
pub open spec fn displayed_address(st: TabState) -> Option<Seq<char>> {
    if st.library_tab matches Some(l) && l@ == st.active@ {
        Some("kite://"@ + st.library_view@)
    } else {
        match tab_index(st.tabs@, st.active@) {
            Some(i) => Some(st.tabs@[i].url@),
            None => None,
        }
    }
}

/// The browser's own hosts, never blocked.
pub open spec fn is_internal_host(h: Seq<char>) -> bool {
    h == "ipc.localhost"@ || h == "127.0.0.1"@ || h == "tauri.localhost"@ || h == "localhost"@
}

/// The site of the tab `label` is allowlisted (a tab that is gone is not).
pub open spec fn site_allowlisted_of(tabs: Seq<TabInfo>, label: Seq<char>) -> bool {
    match tab_index(tabs, label) {
        Some(i) => tabs[i].site_allowlisted,
        None => false,
    }
}

/// The lower-cased host of the tab `label`'s URL, when the tab exists and is
/// neither private nor crashed.
pub open spec fn eligible_host(tabs: Seq<TabInfo>, label: Seq<char>) -> Option<Seq<char>> {
    match tab_index(tabs, label) {
        Some(i) => if tabs[i].is_private || tabs[i].crashed {
            None
        } else {
            match url_host(tabs[i].url@) {
                Some(h) => Some(lowercase(h)),
                None => None,
            }
        },
        None => None,
    }
}

/// Content blocking is off for the site of `url`.
pub open spec fn site_allowed(url: Seq<char>, allowlist: Seq<Seq<char>>) -> bool {
    match url_host(url) {
        Some(h) => matches_allowlist(h, allowlist),
        None => false,
    }
}

/// The message for a command called from the wrong webview.
pub const WRONG_WEBVIEW: &'static str = "not allowed from this webview";

/// Admits a command only from the webview labelled `chrome` (the tab bar,
/// toolbar and library panel); content tabs load arbitrary sites.
pub fn require_chrome(webview_label: &str) -> (r: Result<(), String>)
    ensures
        webview_label@ == MAIN_WEBVIEW_LABEL@ ==> r is Ok,
        webview_label@ != MAIN_WEBVIEW_LABEL@ ==> (r matches Err(e) && e@ == WRONG_WEBVIEW@),
{
    if str_eq(webview_label, MAIN_WEBVIEW_LABEL) {
        Ok(())
    } else {
        Err(WRONG_WEBVIEW.to_owned())
    }
}

/// Admits a command only from a content tab (label `content-<n>`).
pub fn require_content(webview_label: &str) -> (r: Result<(), String>)
    ensures
        has_prefix(webview_label@, "content-"@) ==> r is Ok,
        !has_prefix(webview_label@, "content-"@) ==> (r matches Err(e) && e@ == WRONG_WEBVIEW@),
{
    let cs = chars_of(webview_label);
    if starts_with(cs.as_slice(), "content-") {
        Ok(())
    } else {
        Err(WRONG_WEBVIEW.to_owned())
    }
}

} // verus!
