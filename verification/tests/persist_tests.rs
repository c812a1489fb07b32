use kite::persist::{
    add_bookmark, default_content_blocking_enabled, default_homepage_mode, default_search_engine,
    finish_blocklist_refresh, initial_session_tabs, record_download, record_history,
    remove_bookmark, restored_active_label, set_homepage, set_search_engine, startup_target,
    toggle_allowlist,
    update_history_title, Bookmark, FaviconMap, HistoryEntry, PersistedData, SessionState,
    SessionTab, Settings,
};

#[test]
fn defaults_are_google_home_and_blocking_on() {
    assert_eq!(default_search_engine(), "google");
    assert_eq!(default_homepage_mode(), "home");
    assert!(default_content_blocking_enabled());
    let s = Settings::new();
    assert_eq!(s.search_engine, "google");
    assert_eq!(s.homepage_mode, "home");
    assert!(s.content_blocking_enabled);
}

#[test]
fn history_is_capped_and_titled() {
    let mut h: Vec<HistoryEntry> = Vec::new();
    for i in 0..2005 {
        record_history(&mut h, &format!("https://s{i}.com/"), i as i64);
    }
    assert_eq!(h.len(), 2000);
    assert_eq!(h[0].url, "https://s5.com/");
    record_history(&mut h, "", 9);
    assert_eq!(h.len(), 2000);
    update_history_title(&mut h, "https://s2004.com/", "Title");
    assert_eq!(h[1999].title, "Title");
}

#[test]
fn downloads_are_capped() {
    let mut d = Vec::new();
    for i in 0..505 {
        record_download(&mut d, "https://x/f", Some((Some("f".to_string()), "/tmp/f".to_string())), true, i);
    }
    assert_eq!(d.len(), 500);
    record_download(&mut d, "https://x/g", None, false, 1);
    assert_eq!(d[499].file_name, "https://x/g");
    assert_eq!(d[499].path, "");
}

#[test]
fn bookmarks_are_not_duplicated() {
    let mut b: Vec<Bookmark> = Vec::new();
    add_bookmark(&mut b, "https://a/".into(), "A".into());
    add_bookmark(&mut b, "https://a/".into(), "A again".into());
    assert_eq!(b.len(), 1);
    assert_eq!(b[0].title, "A");
    remove_bookmark(&mut b, "https://a/");
    assert!(b.is_empty());
}

#[test]
fn settings_are_validated() {
    let mut s = Settings::new();
    assert_eq!(set_search_engine(&mut s, "yahoo".into()), Err("unknown search engine: yahoo".to_string()));
    assert_eq!(s.search_engine, "google");
    assert_eq!(set_search_engine(&mut s, "bing".into()), Ok(()));
    assert_eq!(s.search_engine, "bing");
    assert_eq!(set_homepage(&mut s, "weird".into(), ""), Err("unknown homepage mode: weird".to_string()));
    assert_eq!(set_homepage(&mut s, "custom".into(), "news"), Err("'news' doesn't look like a valid URL".to_string()));
    assert_eq!(s.homepage_mode, "home");
    assert_eq!(set_homepage(&mut s, "custom".into(), "example.org"), Ok(()));
    assert_eq!(startup_target(&s), "https://example.org");
    assert_eq!(set_homepage(&mut s, "blank".into(), "ignored.com"), Ok(()));
    assert_eq!(s.homepage_url, "");
    assert_eq!(startup_target(&s), "about:blank");
}

#[test]
fn session_restore_clamps_the_active_index() {
    let mut s = Settings::new();
    let session = SessionState {
        tabs: vec![SessionTab { url: "https://a/".into() }, SessionTab { url: "https://b/".into() }],
        active_index: 7,
    };
    assert_eq!(initial_session_tabs(&s, &session), (vec!["kite://home".to_string()], 0));
    set_homepage(&mut s, "restore".into(), "").unwrap();
    assert_eq!(
        initial_session_tabs(&s, &session),
        (vec!["https://a/".to_string(), "https://b/".to_string()], 1)
    );
    let empty = SessionState { tabs: vec![], active_index: 0 };
    assert_eq!(initial_session_tabs(&s, &empty), (vec!["kite://home".to_string()], 0));
}

#[test]
fn toggling_a_site_twice_restores_the_allowlist() {
    let mut a = vec!["x.com".to_string()];
    assert!(toggle_allowlist(&mut a, "y.com".into()));
    assert_eq!(a, vec!["x.com".to_string(), "y.com".to_string()]);
    assert!(!toggle_allowlist(&mut a, "y.com".into()));
    assert_eq!(a, vec!["x.com".to_string()]);
}

#[test]
fn favicon_map_keeps_the_latest() {
    let mut m = FaviconMap::new();
    assert_eq!(m.get("https://a/"), None);
    m.insert("https://a/".into(), "data:1".into());
    m.insert("https://a/".into(), "data:2".into());
    assert_eq!(m.get("https://a/"), Some("data:2".to_string()));
}

#[test]
fn blocklist_refresh_outcomes_are_recorded() {
    let mut d = PersistedData::new();
    let r = finish_blocklist_refresh(&mut d, Ok(60_000), 123);
    assert!(r.success);
    assert_eq!(d.last_blocklist_refresh, Some(123));
    assert_eq!(d.blocklist_entry_count, Some(60_000));
    let r = finish_blocklist_refresh(&mut d, Err("offline".into()), 456);
    assert!(!r.success);
    assert_eq!(r.error, Some("offline".to_string()));
    assert_eq!(d.last_blocklist_refresh, Some(123));
}

#[test]
fn favicon_pairs_list_each_page_once() {
    let mut m = FaviconMap::new();
    m.insert("https://a/".into(), "1".into());
    m.insert("https://b/".into(), "2".into());
    m.insert("https://a/".into(), "3".into());
    let mut pairs = m.pairs();
    pairs.sort();
    assert_eq!(pairs, vec![("https://a/".to_string(), "3".to_string()), ("https://b/".to_string(), "2".to_string())]);
}

#[test]
fn restored_active_label_falls_back_to_the_first_tab() {
    let labels = vec!["content-0".to_string(), "content-1".to_string()];
    assert_eq!(restored_active_label(&labels, 1), Some("content-1".to_string()));
    assert_eq!(restored_active_label(&labels, 5), Some("content-0".to_string()));
    assert_eq!(restored_active_label(&[], 0), None);
}
