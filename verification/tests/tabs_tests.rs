use kite::blocklist::parse_blocklist_text;
use kite::logins::{report_login_form_present, report_login_submit, FormOffer, LoginSubmit};
use kite::tabs::{require_chrome, require_content, PageAction, TabState};
use kite::vault::{EntryRead, VaultEntryPlaintext};

fn open(st: &mut TabState, url: &str, private: bool) -> String {
    let label = st.allocate_label();
    st.push_tab(label.clone(), url.to_string(), private);
    label
}

#[test]
fn labels_count_up() {
    let mut st = TabState::new();
    assert_eq!(open(&mut st, "kite://home", false), "content-0");
    assert_eq!(open(&mut st, "kite://home", false), "content-1");
    assert_eq!(st.tabs[1].title, "New Tab");
}

#[test]
fn close_then_reopen_restores_the_page() {
    let mut st = TabState::new();
    let a = open(&mut st, "https://a.com/", false);
    let b = open(&mut st, "https://b.com/", false);
    st.activate(&b);
    let out = st.close(&b);
    assert!(out.was_active);
    assert!(!out.remaining_empty);
    assert_eq!(out.next_active, Some(a.clone()));
    assert_eq!(st.pop_closed(), Some("https://b.com/".to_string()));
    assert_eq!(st.pop_closed(), None);
}

#[test]
fn home_and_private_tabs_are_not_remembered() {
    let mut st = TabState::new();
    let h = open(&mut st, "kite://home", false);
    let p = open(&mut st, "https://secret.com/", true);
    st.close(&h);
    st.close(&p);
    assert!(st.closed_tabs.is_empty());
}

#[test]
fn closed_list_keeps_the_latest_fifteen() {
    let mut st = TabState::new();
    for i in 0..20 {
        let l = open(&mut st, &format!("https://s{i}.com/"), false);
        st.close(&l);
    }
    assert_eq!(st.closed_tabs.len(), 15);
    assert_eq!(st.closed_tabs[0], "https://s5.com/");
    assert_eq!(st.closed_tabs[14], "https://s19.com/");
}

#[test]
fn navigation_updates_tab_and_says_what_to_record() {
    let mut st = TabState::new();
    let a = open(&mut st, "kite://home", false);
    st.activate(&a);
    let allow = vec!["example.com".to_string()];
    let out = st.on_navigation(&a, "https://www.example.com/page", &allow);
    assert!(out.is_active);
    assert!(matches!(out.action, PageAction::RecordVisit(ref u) if u == "https://www.example.com/page"));
    assert!(st.tabs[0].site_allowlisted);
    let out = st.on_navigation(&a, "http://tauri.localhost/home.html", &allow);
    assert!(matches!(out.action, PageAction::PushSearchEngine));
    assert_eq!(st.tabs[0].url, "kite://home");
    let out = st.on_navigation(&a, "http://tauri.localhost/crashed.html", &allow);
    assert!(matches!(out.action, PageAction::PushCrashedUrl));
    assert!(st.tabs[0].crashed);
    assert_eq!(st.tabs[0].url, "kite://home");
}

#[test]
fn session_snapshot_skips_private_tabs() {
    let mut st = TabState::new();
    let _a = open(&mut st, "https://a.com/", false);
    let _p = open(&mut st, "https://p.com/", true);
    let c = open(&mut st, "https://c.com/", false);
    st.activate(&c);
    let snap = st.session_snapshot();
    let urls: Vec<String> = snap.tabs.iter().map(|t| t.url.clone()).collect();
    assert_eq!(urls, vec!["https://a.com/".to_string(), "https://c.com/".to_string()]);
    assert_eq!(snap.active_index, 1);
    let p = st.tabs[1].label.clone();
    st.activate(&p);
    assert_eq!(st.session_snapshot().active_index, 0);
}

#[test]
fn requests_blocked_unless_allowlisted_or_internal() {
    let mut st = TabState::new();
    let a = open(&mut st, "https://news.com/", false);
    let list = parse_blocklist_text("ads.net\nlocalhost\n");
    assert!(st.should_block_request(true, &a, &list, "https://x.ads.net/pixel.gif"));
    assert!(!st.should_block_request(false, &a, &list, "https://x.ads.net/pixel.gif"));
    assert!(!st.should_block_request(true, &a, &list, "https://cdn.news.com/app.js"));
    assert!(!st.should_block_request(true, &a, &list, "http://localhost/x"));
    assert!(!st.should_block_request(true, &a, &list, "not a url"));
    st.refresh_site_allowlisted(&["NEWS.com".to_string()]);
    assert!(st.tabs[0].site_allowlisted);
    assert!(!st.should_block_request(true, &a, &list, "https://x.ads.net/pixel.gif"));
}

#[test]
fn library_pin_changes_the_address_bar() {
    let mut st = TabState::new();
    let a = open(&mut st, "https://a.com/", false);
    st.activate(&a);
    assert_eq!(st.active_display_url(), Some("https://a.com/".to_string()));
    assert_eq!(st.show_library(), a);
    st.set_library_view("bookmarks");
    assert_eq!(st.active_display_url(), Some("kite://bookmarks".to_string()));
    st.hide_library();
    assert_eq!(st.active_display_url(), Some("https://a.com/".to_string()));
}

#[test]
fn zoom_steps_clamp_at_the_ends() {
    let mut st = TabState::new();
    let a = open(&mut st, "https://a.com/", false);
    st.activate(&a);
    assert_eq!(st.active_zoom_level(), 7);
    assert_eq!(st.zoom_in(), 8);
    assert_eq!(st.zoom_out(), 7);
    for _ in 0..30 {
        st.zoom_in();
    }
    assert_eq!(st.active_zoom_level(), 16);
    assert_eq!(st.zoom_reset(), 7);
    for _ in 0..30 {
        st.zoom_out();
    }
    assert_eq!(st.active_zoom_level(), 0);
}

#[test]
fn eligible_host_and_login_reports() {
    let mut st = TabState::new();
    let a = open(&mut st, "https://Login.Example.com/signin", false);
    let p = open(&mut st, "https://login.example.com/", true);
    assert_eq!(st.eligible_tab_host(&a), Some("login.example.com".to_string()));
    assert_eq!(st.eligible_tab_host(&p), None);

    let r = report_login_submit(&st, &a, "  LOGIN.example.com ", "bob".into(), "pw".into(), None);
    assert!(matches!(r, LoginSubmit::Capture(ref c) if c.host == "login.example.com" && c.username == "bob"));
    let r = report_login_submit(&st, &a, "evil.com", "bob".into(), "pw".into(), None);
    assert!(matches!(r, LoginSubmit::Ignore));
    let r = report_login_submit(&st, &a, "login.example.com", "bob".into(), "".into(), None);
    assert!(matches!(r, LoginSubmit::Ignore));

    let saved = vec![EntryRead::Login(VaultEntryPlaintext {
        host: "login.example.com".into(),
        username: "bob".into(),
        password: "pw".into(),
    })];
    let r = report_login_submit(&st, &a, "login.example.com", "bob".into(), "pw".into(), Some(saved.as_slice()));
    assert!(matches!(r, LoginSubmit::Ignore));
    let r = report_login_submit(&st, &a, "login.example.com", "bob".into(), "new".into(), Some(saved.as_slice()));
    assert!(matches!(r, LoginSubmit::Capture(_)));
    let r = report_login_submit(&st, &a, "login.example.com", "bob".into(), "new".into(), Some(&[EntryRead::Unreadable][..]));
    assert!(matches!(r, LoginSubmit::Capture(_)));

    match report_login_form_present(&st, &a, "login.example.com", Some(saved.as_slice())) {
        FormOffer::Offer { tab_label, host, usernames } => {
            assert_eq!(tab_label, a);
            assert_eq!(host, "login.example.com");
            assert_eq!(usernames, vec!["bob".to_string()]);
        }
        _ => panic!("expected an offer"),
    }
    assert!(matches!(report_login_form_present(&st, &a, "login.example.com", None), FormOffer::Ignore));
    assert!(matches!(report_login_form_present(&st, &a, "login.example.com", Some(&[][..])), FormOffer::Ignore));
}

#[test]
fn crash_and_home_sources() {
    let mut st = TabState::new();
    assert_eq!(st.home_source(), Err("no active tab".to_string()));
    let a = open(&mut st, "https://a.com/", true);
    st.activate(&a);
    assert_eq!(st.home_source(), Ok((a.clone(), true)));
    assert_eq!(st.crash_source(&a), Some(("https://a.com/".to_string(), "New Tab".to_string(), true)));
    assert_eq!(st.crash_source("content-99"), None);
    assert_eq!(st.active_site_host(), Ok("a.com".to_string()));
}

#[test]
fn commands_check_the_calling_webview() {
    assert_eq!(require_chrome("chrome"), Ok(()));
    assert_eq!(require_chrome("content-3"), Err("not allowed from this webview".to_string()));
    assert_eq!(require_content("content-3"), Ok(()));
    assert_eq!(require_content("chrome"), Err("not allowed from this webview".to_string()));
}

#[test]
fn home_tabs_are_listed_in_order() {
    let mut st = TabState::new();
    let h1 = open(&mut st, "kite://home", false);
    let _w = open(&mut st, "https://w.com/", false);
    let h2 = open(&mut st, "kite://home", true);
    assert_eq!(st.home_tab_labels(), vec![h1, h2]);
}

#[test]
fn favicons_only_for_real_pages() {
    let mut st = TabState::new();
    let h = open(&mut st, "kite://home", false);
    let w = open(&mut st, "https://w.com/", false);
    assert!(!st.should_process_favicon(&h));
    assert!(st.should_process_favicon(&w));
    assert!(!st.should_process_favicon("content-42"));
    assert_eq!(st.apply_favicon(&w, "data:image/png;base64,AA==".to_string()), Some(Some("https://w.com/".to_string())));
    assert_eq!(st.tabs[1].favicon, Some("data:image/png;base64,AA==".to_string()));
    assert_eq!(st.apply_favicon("content-42", "x".to_string()), None);
}

#[test]
fn blocked_requests_are_counted_per_page() {
    let mut st = TabState::new();
    let a = open(&mut st, "https://a.com/", false);
    assert!(st.increment_blocked(&a));
    assert!(st.increment_blocked(&a));
    assert_eq!(st.blocked_count_of(&a), Some(2));
    st.on_navigation(&a, "https://b.com/", &[]);
    assert_eq!(st.blocked_count_of(&a), Some(0));
    assert!(!st.increment_blocked("content-9"));
}

#[test]
fn labels_stay_distinct_after_closing_and_opening() {
    let mut st = TabState::new();
    let a = open(&mut st, "https://a.example/", false);
    let b = open(&mut st, "https://b.example/", false);
    st.close(&a);
    let c = open(&mut st, "https://c.example/", false);
    st.close(&b);
    let d = open(&mut st, "https://d.example/", true);
    let labels: Vec<String> = st.tabs.iter().map(|t| t.label.clone()).collect();
    assert_eq!(labels, vec![c.clone(), d.clone()]);
    assert_ne!(c, a);
    assert_ne!(d, b);
    assert_eq!(d, "content-3");
}
