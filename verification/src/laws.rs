//! Properties that hold across the browser's operations.
use vstd::prelude::*;
use crate::blocklist::{
    blocklist_file_text, blocklist_hosts, blocklist_line_entry, host_lines, lemma_header_lines,
    lemma_host_line, lemma_host_lines_lines, line_safe,
};
use crate::menu::{action_of, menu_layout, MenuAction, MenuEntry};
use crate::shortcuts::{
    action_spec, alt, ctrl, ctrl_shift, lemma_registered_list_named, registered_list, ShortcutKey,
    ShortcutMods,
};
use crate::text::{
    alphanumeric, before_char, has_char, has_prefix, lemma_trim_ends, lemma_trim_plain, lines, lowercase, strip_cr, trim,
};
use crate::persist::{
    first_index_of, keep_last, last_visit_of, lemma_first_index_of, restored_index, startup_url, toggled,
    HISTORY_LIMIT,
};
use crate::tabs::{
    closed_after_close, labels_fresh, privacy_kept, lemma_labels_fresh_push, lemma_tab_index, public_tabs,
    tab_index, tab_label, tab_urls, zoom_in_level, zoom_out_level, TabInfo, CLOSED_TABS_LIMIT,
    ZOOM_LEVEL_COUNT,
};
use crate::vault::{key_after_calls, unlock_key, unlocks, VaultFile};
use crate::urls::{
    extension_for, internal_view, last_path_segment, suggested_file_name, trim_trailing_slashes,
    encode_query_char, has_web_scheme, looks_like_host, normalized_url, search_prefix, urlencoded,
    BLANK_URL, HOME_URL,
};
use crate::encoding::{hex_min2, lemma_hex_min2_chars, upper_hex_char, url_path};

verus! {

/// Reopening the last closed tab brings back the page just closed: closing
/// a tab that is neither private nor the home page puts its URL last on the
/// recently-closed list, which `pop_closed` takes from.
pub proof fn law_reopen_restores_closed_tab(tabs: Seq<TabInfo>, closed: Seq<Seq<char>>, label: Seq<char>)
    requires
        tab_index(tabs, label) matches Some(i) && tabs[i].url@ != HOME_URL@ && !tabs[i].is_private,
    ensures
        closed_after_close(tabs, closed, label).len() > 0,
        closed_after_close(tabs, closed, label).last() == tabs[tab_index(tabs, label)->0].url@,
{
    lemma_tab_index(tabs, label);
    let i = tab_index(tabs, label)->0;
    let s = closed.push(tabs[i].url@);
    if s.len() > CLOSED_TABS_LIMIT {
        assert(keep_last(s, CLOSED_TABS_LIMIT as nat).last() == s.last());
    }
}

/// The recently-closed list never grows past `CLOSED_TABS_LIMIT`.
pub proof fn law_closed_tabs_bounded(tabs: Seq<TabInfo>, closed: Seq<Seq<char>>, label: Seq<char>)
    requires
        closed.len() <= CLOSED_TABS_LIMIT,
    ensures
        closed_after_close(tabs, closed, label).len() <= CLOSED_TABS_LIMIT,
{
}

/// Recording a visit keeps the history within `HISTORY_LIMIT` entries and
/// makes the new visit the latest one.
pub proof fn law_history_keeps_latest(history: Seq<(Seq<char>, Seq<char>, i64)>, visit: (Seq<char>, Seq<char>, i64))
    ensures
        keep_last(history.push(visit), HISTORY_LIMIT as nat).len() <= HISTORY_LIMIT,
        keep_last(history.push(visit), HISTORY_LIMIT as nat).last() == visit,
{
}

/// Zooming in and then out returns to the same step, below the top step.
pub proof fn law_zoom_in_then_out(level: nat)
    requires
        level + 1 < ZOOM_LEVEL_COUNT,
    ensures
        zoom_out_level(zoom_in_level(level)) == level,
{
}

/// Zooming out and then in returns to the same step, above the bottom step.
pub proof fn law_zoom_out_then_in(level: nat)
    requires
        0 < level < ZOOM_LEVEL_COUNT,
    ensures
        zoom_in_level(zoom_out_level(level)) == level,
{
}

/// Toggling a site's allowlisting twice leaves the allowlist as it was,
/// for a site that was not on it.
pub proof fn law_toggle_twice(hosts: Seq<Seq<char>>, host: Seq<char>)
    requires
        first_index_of(hosts, host) is None,
    ensures
        toggled(toggled(hosts, host), host) == hosts,
{
    lemma_first_index_of(hosts.push(host), host);
    lemma_first_index_of(hosts, host);
    let i = first_index_of(hosts.push(host), host)->0;
    assert(hosts.push(host)[hosts.len() as int] == host);
    assert(i == hosts.len()) by {
        if i < hosts.len() {
            assert(hosts.push(host)[i] == hosts[i]);
            assert(hosts[i] != host);
        }
    }
    assert(hosts.push(host).remove(hosts.len() as int) =~= hosts);
}

/// The saved session restores as it was saved: the snapshot holds the
/// non-private tabs, and the active one among them is the one restored as
/// active.
pub proof fn law_session_restores_active(tabs: Seq<TabInfo>, active: Seq<char>)
    requires
        public_tabs(tabs).len() > 0,
    ensures
        ({
            let saved = match tab_index(public_tabs(tabs), active) {
                Some(i) => i,
                None => 0,
            };
            &&& restored_index(saved, tab_urls(public_tabs(tabs)).len() as int) == saved
            &&& tab_index(public_tabs(tabs), active) is Some ==> public_tabs(tabs)[saved].label@ == active
        }),
{
    lemma_tab_index(public_tabs(tabs), active);
}

/// What a new tab opens follows the startup setting just chosen: a custom
/// page, a blank page, or the home page.
pub proof fn law_startup_follows_setting(url: Seq<char>)
    ensures
        url.len() > 0 ==> startup_url("custom"@, url) == url,
        startup_url("blank"@, url) == BLANK_URL@,
        startup_url("home"@, url) == HOME_URL@,
        startup_url("restore"@, url) == HOME_URL@,
{
    reveal_strlit("custom");
    reveal_strlit("blank");
    reveal_strlit("home");
    reveal_strlit("restore");
    assert("blank"@ != "custom"@) by {
        assert("blank"@.len() != "custom"@.len());
    }
    assert("home"@ != "custom"@) by {
        assert("home"@.len() != "custom"@.len());
    }
    assert("home"@ != "blank"@) by {
        assert("home"@.len() != "blank"@.len());
    }
    assert("restore"@ != "custom"@) by {
        assert("restore"@.len() != "custom"@.len());
    }
    assert("restore"@ != "blank"@) by {
        assert("restore"@.len() != "blank"@.len());
    }
}

/// Every menu item is found again by its id.
pub proof fn law_menu_ids_round_trip(a: MenuAction)
    ensures
        action_of(a.id_spec()) == Some(a),
{
    reveal_strlit("ctx-open-link");
    reveal_strlit("ctx-copy-link");
    reveal_strlit("ctx-open-image");
    reveal_strlit("ctx-save-image");
    reveal_strlit("ctx-copy-image");
    reveal_strlit("ctx-copy-image-src");
    reveal_strlit("ctx-cut-selection");
    reveal_strlit("ctx-copy-selection");
    reveal_strlit("ctx-paste");
    reveal_strlit("ctx-select-all");
    reveal_strlit("ctx-back");
    reveal_strlit("ctx-forward");
    reveal_strlit("ctx-reload");
    match a {
        MenuAction::OpenLink => {

        },
        MenuAction::CopyLink => {
            assert("ctx-open-link"@ != "ctx-copy-link"@) by {
                assert("ctx-open-link"@[4] != "ctx-copy-link"@[4]);
            }
        },
        MenuAction::OpenImage => {
            assert("ctx-open-link"@ != "ctx-open-image"@) by {
                assert("ctx-open-link"@.len() != "ctx-open-image"@.len());
            }
            assert("ctx-copy-link"@ != "ctx-open-image"@) by {
                assert("ctx-copy-link"@.len() != "ctx-open-image"@.len());
            }
        },
        MenuAction::SaveImage => {
            assert("ctx-open-link"@ != "ctx-save-image"@) by {
                assert("ctx-open-link"@.len() != "ctx-save-image"@.len());
            }
            assert("ctx-copy-link"@ != "ctx-save-image"@) by {
                assert("ctx-copy-link"@.len() != "ctx-save-image"@.len());
            }
            assert("ctx-open-image"@ != "ctx-save-image"@) by {
                assert("ctx-open-image"@[4] != "ctx-save-image"@[4]);
            }
        },
        MenuAction::CopyImage => {
            assert("ctx-open-link"@ != "ctx-copy-image"@) by {
                assert("ctx-open-link"@.len() != "ctx-copy-image"@.len());
            }
            assert("ctx-copy-link"@ != "ctx-copy-image"@) by {
                assert("ctx-copy-link"@.len() != "ctx-copy-image"@.len());
            }
            assert("ctx-open-image"@ != "ctx-copy-image"@) by {
                assert("ctx-open-image"@[4] != "ctx-copy-image"@[4]);
            }
            assert("ctx-save-image"@ != "ctx-copy-image"@) by {
                assert("ctx-save-image"@[4] != "ctx-copy-image"@[4]);
            }
        },
        MenuAction::CopyImageSrc => {
            assert("ctx-open-link"@ != "ctx-copy-image-src"@) by {
                assert("ctx-open-link"@.len() != "ctx-copy-image-src"@.len());
            }
            assert("ctx-copy-link"@ != "ctx-copy-image-src"@) by {
                assert("ctx-copy-link"@.len() != "ctx-copy-image-src"@.len());
            }
            assert("ctx-open-image"@ != "ctx-copy-image-src"@) by {
                assert("ctx-open-image"@.len() != "ctx-copy-image-src"@.len());
            }
            assert("ctx-save-image"@ != "ctx-copy-image-src"@) by {
                assert("ctx-save-image"@.len() != "ctx-copy-image-src"@.len());
            }
            assert("ctx-copy-image"@ != "ctx-copy-image-src"@) by {
                assert("ctx-copy-image"@.len() != "ctx-copy-image-src"@.len());
            }
        },
        MenuAction::CutSelection => {
            assert("ctx-open-link"@ != "ctx-cut-selection"@) by {
                assert("ctx-open-link"@.len() != "ctx-cut-selection"@.len());
            }
            assert("ctx-copy-link"@ != "ctx-cut-selection"@) by {
                assert("ctx-copy-link"@.len() != "ctx-cut-selection"@.len());
            }
            assert("ctx-open-image"@ != "ctx-cut-selection"@) by {
                assert("ctx-open-image"@.len() != "ctx-cut-selection"@.len());
            }
            assert("ctx-save-image"@ != "ctx-cut-selection"@) by {
                assert("ctx-save-image"@.len() != "ctx-cut-selection"@.len());
            }
            assert("ctx-copy-image"@ != "ctx-cut-selection"@) by {
                assert("ctx-copy-image"@.len() != "ctx-cut-selection"@.len());
            }
            assert("ctx-copy-image-src"@ != "ctx-cut-selection"@) by {
                assert("ctx-copy-image-src"@.len() != "ctx-cut-selection"@.len());
            }
        },
        MenuAction::CopySelection => {
            assert("ctx-open-link"@ != "ctx-copy-selection"@) by {
                assert("ctx-open-link"@.len() != "ctx-copy-selection"@.len());
            }
            assert("ctx-copy-link"@ != "ctx-copy-selection"@) by {
                assert("ctx-copy-link"@.len() != "ctx-copy-selection"@.len());
            }
            assert("ctx-open-image"@ != "ctx-copy-selection"@) by {
                assert("ctx-open-image"@.len() != "ctx-copy-selection"@.len());
            }
            assert("ctx-save-image"@ != "ctx-copy-selection"@) by {
                assert("ctx-save-image"@.len() != "ctx-copy-selection"@.len());
            }
            assert("ctx-copy-image"@ != "ctx-copy-selection"@) by {
                assert("ctx-copy-image"@.len() != "ctx-copy-selection"@.len());
            }
            assert("ctx-copy-image-src"@ != "ctx-copy-selection"@) by {
                assert("ctx-copy-image-src"@[9] != "ctx-copy-selection"@[9]);
            }
            assert("ctx-cut-selection"@ != "ctx-copy-selection"@) by {
                assert("ctx-cut-selection"@.len() != "ctx-copy-selection"@.len());
            }
        },
        MenuAction::Paste => {
            assert("ctx-open-link"@ != "ctx-paste"@) by {
                assert("ctx-open-link"@.len() != "ctx-paste"@.len());
            }
            assert("ctx-copy-link"@ != "ctx-paste"@) by {
                assert("ctx-copy-link"@.len() != "ctx-paste"@.len());
            }
            assert("ctx-open-image"@ != "ctx-paste"@) by {
                assert("ctx-open-image"@.len() != "ctx-paste"@.len());
            }
            assert("ctx-save-image"@ != "ctx-paste"@) by {
                assert("ctx-save-image"@.len() != "ctx-paste"@.len());
            }
            assert("ctx-copy-image"@ != "ctx-paste"@) by {
                assert("ctx-copy-image"@.len() != "ctx-paste"@.len());
            }
            assert("ctx-copy-image-src"@ != "ctx-paste"@) by {
                assert("ctx-copy-image-src"@.len() != "ctx-paste"@.len());
            }
            assert("ctx-cut-selection"@ != "ctx-paste"@) by {
                assert("ctx-cut-selection"@.len() != "ctx-paste"@.len());
            }
            assert("ctx-copy-selection"@ != "ctx-paste"@) by {
                assert("ctx-copy-selection"@.len() != "ctx-paste"@.len());
            }
        },
        MenuAction::SelectAll => {
            assert("ctx-open-link"@ != "ctx-select-all"@) by {
                assert("ctx-open-link"@.len() != "ctx-select-all"@.len());
            }
            assert("ctx-copy-link"@ != "ctx-select-all"@) by {
                assert("ctx-copy-link"@.len() != "ctx-select-all"@.len());
            }
            assert("ctx-open-image"@ != "ctx-select-all"@) by {
                assert("ctx-open-image"@[4] != "ctx-select-all"@[4]);
            }
            assert("ctx-save-image"@ != "ctx-select-all"@) by {
                assert("ctx-save-image"@[5] != "ctx-select-all"@[5]);
            }
            assert("ctx-copy-image"@ != "ctx-select-all"@) by {
                assert("ctx-copy-image"@[4] != "ctx-select-all"@[4]);
            }
            assert("ctx-copy-image-src"@ != "ctx-select-all"@) by {
                assert("ctx-copy-image-src"@.len() != "ctx-select-all"@.len());
            }
            assert("ctx-cut-selection"@ != "ctx-select-all"@) by {
                assert("ctx-cut-selection"@.len() != "ctx-select-all"@.len());
            }
            assert("ctx-copy-selection"@ != "ctx-select-all"@) by {
                assert("ctx-copy-selection"@.len() != "ctx-select-all"@.len());
            }
            assert("ctx-paste"@ != "ctx-select-all"@) by {
                assert("ctx-paste"@.len() != "ctx-select-all"@.len());
            }
        },
        MenuAction::Back => {
            assert("ctx-open-link"@ != "ctx-back"@) by {
                assert("ctx-open-link"@.len() != "ctx-back"@.len());
            }
            assert("ctx-copy-link"@ != "ctx-back"@) by {
                assert("ctx-copy-link"@.len() != "ctx-back"@.len());
            }
            assert("ctx-open-image"@ != "ctx-back"@) by {
                assert("ctx-open-image"@.len() != "ctx-back"@.len());
            }
            assert("ctx-save-image"@ != "ctx-back"@) by {
                assert("ctx-save-image"@.len() != "ctx-back"@.len());
            }
            assert("ctx-copy-image"@ != "ctx-back"@) by {
                assert("ctx-copy-image"@.len() != "ctx-back"@.len());
            }
            assert("ctx-copy-image-src"@ != "ctx-back"@) by {
                assert("ctx-copy-image-src"@.len() != "ctx-back"@.len());
            }
            assert("ctx-cut-selection"@ != "ctx-back"@) by {
                assert("ctx-cut-selection"@.len() != "ctx-back"@.len());
            }
            assert("ctx-copy-selection"@ != "ctx-back"@) by {
                assert("ctx-copy-selection"@.len() != "ctx-back"@.len());
            }
            assert("ctx-paste"@ != "ctx-back"@) by {
                assert("ctx-paste"@.len() != "ctx-back"@.len());
            }
            assert("ctx-select-all"@ != "ctx-back"@) by {
                assert("ctx-select-all"@.len() != "ctx-back"@.len());
            }
        },
        MenuAction::Forward => {
            assert("ctx-open-link"@ != "ctx-forward"@) by {
                assert("ctx-open-link"@.len() != "ctx-forward"@.len());
            }
            assert("ctx-copy-link"@ != "ctx-forward"@) by {
                assert("ctx-copy-link"@.len() != "ctx-forward"@.len());
            }
            assert("ctx-open-image"@ != "ctx-forward"@) by {
                assert("ctx-open-image"@.len() != "ctx-forward"@.len());
            }
            assert("ctx-save-image"@ != "ctx-forward"@) by {
                assert("ctx-save-image"@.len() != "ctx-forward"@.len());
            }
            assert("ctx-copy-image"@ != "ctx-forward"@) by {
                assert("ctx-copy-image"@.len() != "ctx-forward"@.len());
            }
            assert("ctx-copy-image-src"@ != "ctx-forward"@) by {
                assert("ctx-copy-image-src"@.len() != "ctx-forward"@.len());
            }
            assert("ctx-cut-selection"@ != "ctx-forward"@) by {
                assert("ctx-cut-selection"@.len() != "ctx-forward"@.len());
            }
            assert("ctx-copy-selection"@ != "ctx-forward"@) by {
                assert("ctx-copy-selection"@.len() != "ctx-forward"@.len());
            }
            assert("ctx-paste"@ != "ctx-forward"@) by {
                assert("ctx-paste"@.len() != "ctx-forward"@.len());
            }
            assert("ctx-select-all"@ != "ctx-forward"@) by {
                assert("ctx-select-all"@.len() != "ctx-forward"@.len());
            }
            assert("ctx-back"@ != "ctx-forward"@) by {
                assert("ctx-back"@.len() != "ctx-forward"@.len());
            }
        },
        MenuAction::Reload => {
            assert("ctx-open-link"@ != "ctx-reload"@) by {
                assert("ctx-open-link"@.len() != "ctx-reload"@.len());
            }
            assert("ctx-copy-link"@ != "ctx-reload"@) by {
                assert("ctx-copy-link"@.len() != "ctx-reload"@.len());
            }
            assert("ctx-open-image"@ != "ctx-reload"@) by {
                assert("ctx-open-image"@.len() != "ctx-reload"@.len());
            }
            assert("ctx-save-image"@ != "ctx-reload"@) by {
                assert("ctx-save-image"@.len() != "ctx-reload"@.len());
            }
            assert("ctx-copy-image"@ != "ctx-reload"@) by {
                assert("ctx-copy-image"@.len() != "ctx-reload"@.len());
            }
            assert("ctx-copy-image-src"@ != "ctx-reload"@) by {
                assert("ctx-copy-image-src"@.len() != "ctx-reload"@.len());
            }
            assert("ctx-cut-selection"@ != "ctx-reload"@) by {
                assert("ctx-cut-selection"@.len() != "ctx-reload"@.len());
            }
            assert("ctx-copy-selection"@ != "ctx-reload"@) by {
                assert("ctx-copy-selection"@.len() != "ctx-reload"@.len());
            }
            assert("ctx-paste"@ != "ctx-reload"@) by {
                assert("ctx-paste"@.len() != "ctx-reload"@.len());
            }
            assert("ctx-select-all"@ != "ctx-reload"@) by {
                assert("ctx-select-all"@.len() != "ctx-reload"@.len());
            }
            assert("ctx-back"@ != "ctx-reload"@) by {
                assert("ctx-back"@.len() != "ctx-reload"@.len());
            }
            assert("ctx-forward"@ != "ctx-reload"@) by {
                assert("ctx-forward"@.len() != "ctx-reload"@.len());
            }
        },
    }
}

/// A refreshed blocklist written to disk reads back as the hosts it was
/// written from, lower-cased: the header's lines are comments and every
/// host has a line of its own. Holds for hosts that fit on a line as they
/// are (see `line_safe`), as every parsed host does.
pub proof fn law_written_blocklist_reads_back(hosts: Seq<Seq<char>>, refreshed_at: i64)
    requires
        forall|i: int| 0 <= i < hosts.len() ==> line_safe(#[trigger] hosts[i]),
    ensures
        blocklist_hosts(blocklist_file_text(hosts, refreshed_at)) == hosts.map_values(
            |h: Seq<char>| lowercase(h),
        ).to_set(),
{
    let body = host_lines(hosts);
    let text = blocklist_file_text(hosts, refreshed_at);
    lemma_header_lines(hosts.len(), refreshed_at, body);
    lemma_host_lines_lines(hosts);
    let ls = lines(text);
    let low = hosts.map_values(|h: Seq<char>| lowercase(h));
    let want = low.to_set();
    assert forall|x: Seq<char>| blocklist_hosts(text).contains(x) <==> want.contains(x) by {
        if blocklist_hosts(text).contains(x) {
            let i = choose|i: int| 0 <= i < ls.len() && blocklist_line_entry(ls[i]) == Some(x);
            if i < 5 {
                assert(blocklist_line_entry(ls[i]) is None);
            } else {
                let k = i - 5;
                assert(ls[i] == ls.skip(5)[k]);
                assert(ls.skip(5)[k] == strip_cr(hosts[k]));
                lemma_host_line(hosts[k]);
                assert(low[k] == x);
            }
        }
        if want.contains(x) {
            let k = choose|k: int| 0 <= k < low.len() && #[trigger] low[k] == x;
            lemma_host_line(hosts[k]);
            assert(ls.skip(5)[k] == strip_cr(hosts[k]));
            assert(ls[k + 5] == ls.skip(5)[k]);
            assert(blocklist_line_entry(ls[k + 5]) == Some(x));
        }
    }
    assert(blocklist_hosts(text) =~= want);
}

/// Cycling to the next tab and then back returns to the tab started from
/// (tab labels are distinct, as `allocate_label` makes them): the next
/// tab is found again by its label, and the one before it is the start.
pub proof fn law_cycle_back_undoes_forward(tabs: Seq<TabInfo>, i: int)
    requires
        0 <= i < tabs.len(),
        forall|a: int, b: int| 0 <= a < b < tabs.len() ==> tabs[a].label@ != tabs[b].label@,
    ensures
        ({
            let n = tabs.len() as int;
            let j = (i + 1) % n;
            &&& 0 <= j < n
            &&& tab_index(tabs, tabs[j].label@) == Some(j)
            &&& (j + n - 1) % n == i
        }),
{
    let n = tabs.len() as int;
    let j = (i + 1) % n;
    if i + 1 < n {
        assert(j == i + 1) by (nonlinear_arith)
            requires
                j == (i + 1) % n,
                0 <= i,
                i + 1 < n,
        ;
        assert((j + n - 1) % n == i) by (nonlinear_arith)
            requires
                j == i + 1,
                0 <= i < n,
        ;
    } else {
        assert(j == 0) by (nonlinear_arith)
            requires
                j == (i + 1) % n,
                i + 1 == n,
                n > 0,
        ;
        assert((j + n - 1) % n == i) by (nonlinear_arith)
            requires
                j == 0,
                i == n - 1,
                n > 0,
        ;
    }
    lemma_tab_index(tabs, tabs[j].label@);
    if let Some(k) = tab_index(tabs, tabs[j].label@) {
        if k < j {
            assert(tabs[k].label@ != tabs[j].label@);
        } else if k > j {
            assert(tabs[j].label@ != tabs[k].label@);
        }
    }
}


/// The vault's lock state follows its create, unlock and lock calls:
/// starting locked, the vault is unlocked after a run of calls exactly when
/// some unlock (or creation) succeeded with no lock after it, and the key it
/// then holds is the one the latest successful one derived. A lock always
/// leaves it locked, and a failed unlock or creation changes nothing.
#[verifier::rlimit(50)]
pub proof fn law_vault_key_follows_calls(calls: Seq<(VaultFile, Option<Seq<char>>)>)
    ensures
        key_after_calls(None, calls) is Some <==> exists|i: int|
            0 <= i < calls.len() && unlocks(#[trigger] calls[i]) && forall|j: int|
                i < j < calls.len() ==> calls[j].1 is Some,
        forall|i: int|
            0 <= i < calls.len() && unlocks(#[trigger] calls[i]) && (forall|j: int|
                i < j < calls.len() ==> calls[j].1 is Some && !unlocks(calls[j])) ==> key_after_calls(
                None,
                calls,
            ) == unlock_key(calls[i].0, calls[i].1->0),
        calls.len() > 0 && calls.last().1 is None ==> key_after_calls(None, calls) is None,
    decreases calls.len(),
{
    if calls.len() > 0 {
        let prev = calls.drop_last();
        law_vault_key_follows_calls(prev);
        let n = calls.len() - 1;
        assert forall|i: int| 0 <= i < prev.len() implies prev[i] == calls[i] by {}
        if unlocks(calls[n]) {
            assert(unlocks(calls[n]) && forall|j: int| n < j < calls.len() ==> calls[j].1 is Some);
        } else if calls[n].1 is None {
            assert forall|i: int|
                0 <= i < calls.len() && unlocks(calls[i]) implies !(forall|j: int|
                i < j < calls.len() ==> calls[j].1 is Some) by {
                assert(!(calls[n].1 is Some));
            }
        } else {
            if key_after_calls(None, calls) is Some {
                let i = choose|i: int|
                    0 <= i < prev.len() && unlocks(#[trigger] prev[i]) && forall|j: int|
                        i < j < prev.len() ==> prev[j].1 is Some;
                assert(unlocks(calls[i]));
            }
            assert forall|i: int|
                0 <= i < calls.len() && unlocks(#[trigger] calls[i]) && (forall|j: int|
                    i < j < calls.len() ==> calls[j].1 is Some) implies key_after_calls(None, calls)
                is Some by {
                assert(i < n);
                assert(unlocks(prev[i]));
                assert forall|j: int| i < j < prev.len() implies prev[j].1 is Some by {
                    assert(calls[j].1 is Some);
                }
            }
            assert forall|i: int|
                0 <= i < calls.len() && unlocks(#[trigger] calls[i]) && (forall|j: int|
                    i < j < calls.len() ==> calls[j].1 is Some && !unlocks(calls[j])) implies key_after_calls(
                None,
                calls,
            ) == unlock_key(calls[i].0, calls[i].1->0) by {
                assert(i < n);
                assert(unlocks(prev[i]));
                assert forall|j: int| i < j < prev.len() implies prev[j].1 is Some && !unlocks(prev[j]) by {
                    assert(calls[j].1 is Some && !unlocks(calls[j]));
                }
            }
        }
    }
}

/// Opening a tab keeps every tab label distinct: the label
/// `allocate_label` gives out is new, and `push_tab` with it keeps the
/// labels fresh once the counter has moved on.
pub proof fn law_opened_tab_keeps_labels_distinct(tabs: Seq<TabInfo>, next_id: nat, t: TabInfo)
    requires
        labels_fresh(tabs, next_id),
        t.label@ == tab_label(next_id),
    ensures
        forall|i: int| 0 <= i < tabs.len() ==> tabs[i].label@ != t.label@,
        labels_fresh(tabs.push(t), next_id + 1),
        forall|i: int, j: int|
            0 <= i < j < tabs.len() + 1 ==> tabs.push(t)[i].label@ != tabs.push(t)[j].label@,
{
    lemma_labels_fresh_push(tabs, t, next_id);
}


/// Normalizing typed text is idempotent: what `normalize_url` navigates
/// to, typed again into the address bar, navigates to the same address.
pub proof fn law_normalize_url_idempotent(input: Seq<char>, engine: Seq<char>)
    ensures
        normalized_url(normalized_url(input, engine), engine) == normalized_url(input, engine),
{
    reveal_strlit("http://");
    reveal_strlit("https://");
    reveal_strlit("bing");
    reveal_strlit("duckduckgo");
    reveal_strlit("https://www.bing.com/search?q=");
    reveal_strlit("https://duckduckgo.com/?q=");
    reveal_strlit("https://www.google.com/search?q=");
    let t = trim(input);
    let r = normalized_url(input, engine);
    lemma_trim_ends(input);
    if has_web_scheme(t) {
        lemma_trim_plain(t);
    } else if looks_like_host(t) {
        assert(r[0] == 'h');
        assert(r.last() == t.last());
        lemma_trim_plain(r);
        assert(r.take(8) =~= "https://"@);
    } else {
        let p = search_prefix(engine);
        assert(r == p + urlencoded(t));
        assert(p.take(8) =~= "https://"@);
        assert(r.take(8) =~= "https://"@) by {
            assert forall|i: int| 0 <= i < 8 implies r[i] == p[i] by {}
        }
        assert(r[0] == 'h');
        if t.len() == 0 {
            assert(urlencoded(t) =~= Seq::<char>::empty());
            assert(r =~= p);
            assert(r.last() == '=');
        } else {
            let c = t.last();
            let e = encode_query_char(c);
            assert(urlencoded(t) == urlencoded(t.drop_last()) + e);
            assert(c != ' ');
            if alphanumeric(c) {
                assert(r.last() == c);
            } else {
                lemma_hex_min2_chars(c as u32 as nat);
                let h = hex_min2(c as u32 as nat);
                assert(h.len() > 0);
                assert(e == seq!['%'] + h);
                assert(r.last() == h.last());
                assert(upper_hex_char(h[h.len() - 1]));
            }
        }
        lemma_trim_plain(r);
    }
}


/// The shortcuts registered at startup are exactly the combinations that
/// name an action, each registered once.
pub proof fn law_registered_shortcuts_exact(m: ShortcutMods, k: ShortcutKey)
    ensures
        action_spec(m, k) is Some <==> registered_list().contains((m, k)),
        forall|i: int, j: int|
            0 <= i < j < registered_list().len() ==> registered_list()[i] != registered_list()[j],
{
    let l = registered_list();
    lemma_registered_list_named();
    if registered_list().contains((m, k)) {
        let i = choose|i: int| 0 <= i < l.len() && l[i] == (m, k);
        assert(action_spec(l[i].0, l[i].1) is Some);
    }
    if action_spec(m, k) is Some {
        let w: int = if m == ctrl() {
            match k {
                ShortcutKey::KeyT => 0,
                ShortcutKey::KeyW => 1,
                ShortcutKey::KeyL => 4,
                ShortcutKey::KeyD => 5,
                ShortcutKey::KeyH => 6,
                ShortcutKey::KeyF => 7,
                ShortcutKey::Equal => 8,
                ShortcutKey::Minus => 9,
                ShortcutKey::Digit(d) => 10 + d,
                ShortcutKey::Tab => 20,
                _ => 24,
            }
        } else if m == ctrl_shift() {
            match k {
                ShortcutKey::KeyT => 2,
                ShortcutKey::KeyN => 3,
                _ => 21,
            }
        } else {
            match k {
                ShortcutKey::ArrowLeft => 22,
                ShortcutKey::ArrowRight => 23,
                _ => 25,
            }
        };
        assert(0 <= w < l.len() && l[w] == (m, k));
    }
    assert forall|i: int, j: int| 0 <= i < j < l.len() implies l[i] != l[j] by {
        if l[i] == l[j] {
            assert(l[i].0 == l[j].0 && l[i].1 == l[j].1);
        }
    }
}


/// Some tab bears the label.
pub open spec fn has_tab(tabs: Seq<TabInfo>, label: Seq<char>) -> bool {
    exists|i: int| 0 <= i < tabs.len() && #[trigger] tabs[i].label@ == label
}

/// Every tab bearing the label is private.
pub open spec fn private_tab(tabs: Seq<TabInfo>, label: Seq<char>) -> bool {
    forall|i: int| 0 <= i < tabs.len() && #[trigger] tabs[i].label@ == label ==> tabs[i].is_private
}

/// A private tab stays private as long as it is open: over a run of tab
/// lists, each reached from the one before by an operation that keeps
/// privacy (as every `TabState` operation does, see `privacy_kept`), a tab
/// that is private and open at the start is private in every later list.
/// Since `on_navigation` and `on_title_changed` ask a private tab to record
/// nothing, no history entry or title update ever comes from it.
pub proof fn law_private_tab_stays_private(states: Seq<Seq<TabInfo>>, label: Seq<char>)
    requires
        states.len() > 0,
        forall|k: int| 0 <= k < states.len() - 1 ==> privacy_kept(#[trigger] states[k], states[k + 1]),
        forall|k: int| 0 <= k < states.len() ==> has_tab(#[trigger] states[k], label),
        private_tab(states[0], label),
    ensures
        forall|k: int| 0 <= k < states.len() ==> private_tab(#[trigger] states[k], label),
    decreases states.len(),
{
    if states.len() > 1 {
        let prev = states.drop_last();
        assert forall|k: int| 0 <= k < prev.len() - 1 implies privacy_kept(#[trigger] prev[k], prev[k + 1]) by {
            assert(prev[k] == states[k] && prev[k + 1] == states[k + 1]);
        }
        assert forall|k: int| 0 <= k < prev.len() implies has_tab(#[trigger] prev[k], label) by {
            assert(prev[k] == states[k]);
        }
        law_private_tab_stays_private(prev, label);
        let n = states.len() - 1;
        assert(private_tab(states[n - 1], label)) by {
            assert(prev[n - 1] == states[n - 1]);
        }
        assert(has_tab(states[n - 1], label));
        let j = choose|j: int| 0 <= j < states[n - 1].len() && #[trigger] states[n - 1][j].label@ == label;
        assert(privacy_kept(states[n - 1], states[n]));
        assert forall|i: int| 0 <= i < states[n].len() && #[trigger] states[n][i].label@ == label implies states[n][i].is_private by {
            assert(states[n][i].label@ == states[n - 1][j].label@);
        }
        assert forall|k: int| 0 <= k < states.len() implies private_tab(#[trigger] states[k], label) by {
            if k < n {
                assert(prev[k] == states[k]);
            }
        }
    }
}


/// The context menu offers what was right-clicked, row by row: a link
/// opens or copies; an image opens, saves, copies or copies its address;
/// an editable field cuts, copies, pastes (a separator) and selects all,
/// or just pastes and selects all without a selection; a selection copies
/// and selects all; anything else goes back, forward or reloads.
pub proof fn law_context_menu_rows(has_href: bool, has_src: bool, has_selection: bool)
    ensures
        has_href ==> menu_layout("link"@, has_href, has_src, has_selection) == seq![
            MenuEntry::Item(MenuAction::OpenLink),
            MenuEntry::Item(MenuAction::CopyLink),
        ],
        has_src ==> menu_layout("image"@, has_href, has_src, has_selection) == seq![
            MenuEntry::Item(MenuAction::OpenImage),
            MenuEntry::Separator,
            MenuEntry::Item(MenuAction::SaveImage),
            MenuEntry::Item(MenuAction::CopyImage),
            MenuEntry::Item(MenuAction::CopyImageSrc),
        ],
        has_selection ==> menu_layout("editable"@, has_href, has_src, has_selection) == seq![
            MenuEntry::Item(MenuAction::CutSelection),
            MenuEntry::Item(MenuAction::CopySelection),
            MenuEntry::Item(MenuAction::Paste),
            MenuEntry::Separator,
            MenuEntry::Item(MenuAction::SelectAll),
        ],
        !has_selection ==> menu_layout("editable"@, has_href, has_src, has_selection) == seq![
            MenuEntry::Item(MenuAction::Paste),
            MenuEntry::Item(MenuAction::SelectAll),
        ],
        has_selection ==> menu_layout("selection"@, has_href, has_src, has_selection) == seq![
            MenuEntry::Item(MenuAction::CopySelection),
            MenuEntry::Item(MenuAction::SelectAll),
        ],
        menu_layout("page"@, has_href, has_src, has_selection) == seq![
            MenuEntry::Item(MenuAction::Back),
            MenuEntry::Item(MenuAction::Forward),
            MenuEntry::Item(MenuAction::Reload),
        ],
        forall|t: Seq<char>|
            (t != "link"@ || !has_href) && (t != "image"@ || !has_src) && t != "editable"@ && (t
                != "selection"@ || !has_selection) ==> #[trigger] menu_layout(t, has_href, has_src, has_selection)
                == seq![
                MenuEntry::Item(MenuAction::Back),
                MenuEntry::Item(MenuAction::Forward),
                MenuEntry::Item(MenuAction::Reload),
            ],
{
    reveal_strlit("link");
    reveal_strlit("image");
    reveal_strlit("editable");
    reveal_strlit("selection");
    reveal_strlit("page");
    assert("image"@ != "link"@) by {
        assert("image"@[0] != "link"@[0]);
    }
    assert("editable"@ != "link"@ && "editable"@ != "image"@) by {
        assert("editable"@[0] != "link"@[0]);
        assert("editable"@[0] != "image"@[0]);
    }
    assert("selection"@ != "link"@ && "selection"@ != "image"@ && "selection"@ != "editable"@) by {
        assert("selection"@[0] != "link"@[0]);
        assert("selection"@[0] != "image"@[0]);
        assert("selection"@[0] != "editable"@[0]);
    }
    assert("page"@ != "link"@ && "page"@ != "image"@ && "page"@ != "editable"@ && "page"@ != "selection"@) by {
        assert("page"@[0] != "link"@[0]);
        assert("page"@[0] != "image"@[0]);
        assert("page"@[0] != "editable"@[0]);
        assert("page"@[0] != "selection"@[0]);
    }
}

/// A page title goes to the most recent visit of its URL: the position
/// `last_visit_of` picks holds that URL and no later record does, and there
/// is none exactly when no record holds the URL.
pub proof fn law_title_goes_to_latest_visit(h: Seq<(Seq<char>, Seq<char>, i64)>, url: Seq<char>)
    ensures
        match last_visit_of(h, url) {
            Some(i) => 0 <= i < h.len() && h[i].0 == url && forall|j: int| i < j < h.len() ==> h[j].0 != url,
            None => forall|j: int| 0 <= j < h.len() ==> h[j].0 != url,
        },
    decreases h.len(),
{
    if h.len() > 0 && h.last().0 != url {
        law_title_goes_to_latest_visit(h.drop_last(), url);
        assert forall|j: int| 0 <= j < h.len() - 1 implies h.drop_last()[j] == h[j] by {}
    }
}

/// Typed text becomes an address as follows: trimmed, it is kept when it
/// starts with `http://` or `https://`; otherwise, when it has a `.` and no
/// space, it is that host (and path) under `https://`; otherwise it is a
/// search for it, on the chosen engine's search page.
pub proof fn law_typed_text_becomes_address(input: Seq<char>, engine: Seq<char>)
    ensures
        ({
            let t = trim(input);
            let r = normalized_url(input, engine);
            if has_prefix(t, "http://"@) || has_prefix(t, "https://"@) {
                r == t
            } else if has_char(t, '.') && !has_char(t, ' ') {
                r == "https://"@ + t
            } else {
                r == (if engine == "bing"@ {
                    "https://www.bing.com/search?q="@
                } else if engine == "duckduckgo"@ {
                    "https://duckduckgo.com/?q="@
                } else {
                    "https://www.google.com/search?q="@
                }) + urlencoded(t)
            }
        }),
{
}

/// `image.` and the extension the content type names among PNG, JPEG,
/// GIF, WebP and BMP (its part before any `;`, trimmed), `png` otherwise.
pub open spec fn image_fallback_name(r: Seq<char>, content_type: Option<Seq<char>>) -> bool {
    let t = match content_type {
        Some(ct) => trim(before_char(ct, ';')),
        None => Seq::empty(),
    };
    r == if t == "image/jpeg"@ || t == "image/jpg"@ {
        "image.jpg"@
    } else if t == "image/gif"@ {
        "image.gif"@
    } else if t == "image/webp"@ {
        "image.webp"@
    } else if t == "image/bmp"@ {
        "image.bmp"@
    } else {
        "image.png"@
    }
}

/// The file name offered when saving an image always has an extension: it
/// is the last segment of the image URL's path when that segment holds a
/// `.`, and otherwise `image.` followed by an extension from the content
/// type (`png` when it names none it knows).
pub proof fn law_saved_image_name_has_extension(src: Seq<char>, content_type: Option<Seq<char>>)
    ensures
        ({
            let r = suggested_file_name(src, content_type);
            &&& has_char(r, '.')
            &&& match url_path(src) {
                Some(p) => match last_path_segment(p) {
                    Some(last) => if !has_prefix(src, "data:"@) && last.len() > 0 && has_char(last, '.') {
                        r == last
                    } else {
                        image_fallback_name(r, content_type)
                    },
                    None => image_fallback_name(r, content_type),
                },
                None => image_fallback_name(r, content_type),
            }
        }),
{
    reveal_strlit("image.");
    reveal_strlit("png");
    reveal_strlit("jpg");
    reveal_strlit("gif");
    reveal_strlit("webp");
    reveal_strlit("bmp");
    reveal_strlit("image.png");
    reveal_strlit("image.jpg");
    reveal_strlit("image.gif");
    reveal_strlit("image.webp");
    reveal_strlit("image.bmp");
    let r = suggested_file_name(src, content_type);
    let ext = match content_type {
        Some(ct) => match extension_for(ct) {
            Some(e) => e,
            None => "png"@,
        },
        None => "png"@,
    };
    let fb = "image."@ + ext;
    assert(fb[5] == '.');
    assert(ext == "png"@ || ext == "jpg"@ || ext == "gif"@ || ext == "webp"@ || ext == "bmp"@);
    reveal_strlit("image/png");
    reveal_strlit("image/jpeg");
    reveal_strlit("image/jpg");
    reveal_strlit("image/gif");
    reveal_strlit("image/webp");
    reveal_strlit("image/bmp");
    assert("image."@ + "png"@ =~= "image.png"@);
    assert("image."@ + "jpg"@ =~= "image.jpg"@);
    assert("image."@ + "gif"@ =~= "image.gif"@);
    assert("image."@ + "webp"@ =~= "image.webp"@);
    assert("image."@ + "bmp"@ =~= "image.bmp"@);
    assert("image/png"@.len() == 9 && "image/png"@[6] == 'p');
    assert("image/jpeg"@.len() == 10 && "image/jpeg"@[6] == 'j');
    assert("image/jpg"@.len() == 9 && "image/jpg"@[6] == 'j');
    assert("image/gif"@.len() == 9 && "image/gif"@[6] == 'g');
    assert("image/webp"@.len() == 10 && "image/webp"@[6] == 'w');
    assert("image/bmp"@.len() == 9 && "image/bmp"@[6] == 'b');
    match content_type {
        Some(ct) => {
            let t = trim(before_char(ct, ';'));
            if t == "image/png"@ {
                assert(ext == "png"@);
            } else if t == "image/jpeg"@ || t == "image/jpg"@ {
                assert(ext == "jpg"@);
            } else if t == "image/gif"@ {
                assert(ext == "gif"@);
            } else if t == "image/webp"@ {
                assert(ext == "webp"@);
            } else if t == "image/bmp"@ {
                assert(ext == "bmp"@);
            } else {
                assert(ext == "png"@);
            }
        },
        None => {},
    }
    assert(image_fallback_name(fb, content_type));
    assert(has_char(fb, '.'));
}

/// `kite://` pages open the library view of the same name: each of
/// `history`, `bookmarks`, `downloads`, `settings` and `passwords`, with or
/// without a trailing `/`, opens that view, and any page that opens a view
/// is that view's name followed only by `/` characters.
pub proof fn law_internal_pages_open_their_view(page: Seq<char>)
    ensures
        internal_view("history"@) == Some("history"@),
        internal_view("history/"@) == Some("history"@),
        internal_view("bookmarks"@) == Some("bookmarks"@),
        internal_view("bookmarks/"@) == Some("bookmarks"@),
        internal_view("downloads"@) == Some("downloads"@),
        internal_view("downloads/"@) == Some("downloads"@),
        internal_view("settings"@) == Some("settings"@),
        internal_view("settings/"@) == Some("settings"@),
        internal_view("passwords"@) == Some("passwords"@),
        internal_view("passwords/"@) == Some("passwords"@),
        internal_view(page) matches Some(v) ==> (v == "history"@ || v == "bookmarks"@ || v == "downloads"@
            || v == "settings"@ || v == "passwords"@) && has_prefix(page, v) && forall|i: int|
            v.len() <= i < page.len() ==> page[i] == '/',
{
    reveal_strlit("history");
    reveal_strlit("history/");
    reveal_strlit("bookmarks");
    reveal_strlit("bookmarks/");
    reveal_strlit("downloads");
    reveal_strlit("downloads/");
    reveal_strlit("settings");
    reveal_strlit("settings/");
    reveal_strlit("passwords");
    reveal_strlit("passwords/");
    reveal_strlit("/");
    lemma_trailing_slashes(page);
    lemma_view_name("history"@);
    lemma_view_name("bookmarks"@);
    lemma_view_name("downloads"@);
    lemma_view_name("settings"@);
    lemma_view_name("passwords"@);
    assert("history/"@ =~= "history"@ + "/"@);
    assert("bookmarks/"@ =~= "bookmarks"@ + "/"@);
    assert("downloads/"@ =~= "downloads"@ + "/"@);
    assert("settings/"@ =~= "settings"@ + "/"@);
    assert("passwords/"@ =~= "passwords"@ + "/"@);
}

/// A name not ending in `/` is its own trimmed form, with or without one
/// trailing `/`.
proof fn lemma_view_name(n: Seq<char>)
    requires
        n.len() > 0,
        n.last() != '/',
    ensures
        trim_trailing_slashes(n) == n,
        trim_trailing_slashes(n + "/"@) == n,
{
    reveal_strlit("/");
    let m = n + "/"@;
    assert(m.last() == '/');
    assert(m.drop_last() =~= n);
}

/// `trim_trailing_slashes` keeps a prefix and drops only `/` characters.
proof fn lemma_trailing_slashes(s: Seq<char>)
    ensures
        has_prefix(s, trim_trailing_slashes(s)),
        forall|i: int| trim_trailing_slashes(s).len() <= i < s.len() ==> s[i] == '/',
    decreases s.len(),
{
    if s.len() > 0 && s.last() == '/' {
        lemma_trailing_slashes(s.drop_last());
        let t = trim_trailing_slashes(s);
        assert(s.take(t.len() as int) =~= s.drop_last().take(t.len() as int));
        assert forall|i: int| t.len() <= i < s.len() implies s[i] == '/' by {
            if i < s.len() - 1 {
                assert(s[i] == s.drop_last()[i]);
            }
        }
    } else {
        assert(s.take(s.len() as int) =~= s);
    }
}

} // verus!
