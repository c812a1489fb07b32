use kite::blocklist::{
    blocklist, blocklist_is_stale, initial_blocklist, host_matches_allowlist, is_blocked_host, parse_blocklist_text,
    parse_stevenblack_hosts, render_blocklist, saturating_sub_i64, validate_refreshed_list,
    RefreshError,
};
use kite::hostset::HostSet;

#[test]
fn parse_stevenblack_hosts_takes_zero_ip_entries() {
    let text = "# comment\n0.0.0.0 Ads.Example.com # tracker\r\n127.0.0.1 localhost\n0.0.0.0 localhost\n0.0.0.0 0.0.0.0\n  0.0.0.0   pixel.example.net  extra\n0.0.0.0\n";
    let set = parse_stevenblack_hosts(text);
    assert_eq!(set.len(), 2);
    assert!(set.contains("ads.example.com"));
    assert!(set.contains("pixel.example.net"));
    assert!(!set.contains("localhost"));
}

#[test]
fn parse_blocklist_text_one_host_per_line() {
    let set = parse_blocklist_text("# header\n\nDoubleClick.net\n  tracker.io  \n#commented.com\ntracker.io\n");
    assert_eq!(set.len(), 2);
    assert!(set.contains("doubleclick.net"));
    assert!(set.contains("tracker.io"));
    assert!(!set.contains("commented.com"));
    let bundled = blocklist("a.com\nb.com");
    assert_eq!(bundled.len(), 2);
}

#[test]
fn is_blocked_host_matches_parent_domains() {
    let set = parse_blocklist_text("doubleclick.net\nads.example.com\n");
    assert!(is_blocked_host(&set, "doubleclick.net"));
    assert!(is_blocked_host(&set, "AD.DoubleClick.NET"));
    assert!(is_blocked_host(&set, "x.y.ads.example.com"));
    assert!(!is_blocked_host(&set, "example.com"));
    assert!(!is_blocked_host(&set, "notdoubleclick.net"));
}

#[test]
fn host_matches_allowlist_both_directions() {
    let list = vec!["Example.com".to_string()];
    assert!(host_matches_allowlist("example.com", &list));
    assert!(host_matches_allowlist("www.EXAMPLE.com", &list));
    assert!(!host_matches_allowlist("notexample.com", &list));
    let sub = vec!["news.site.org".to_string()];
    assert!(host_matches_allowlist("site.org", &sub));
    assert!(!host_matches_allowlist("other.org", &sub));
    assert!(!host_matches_allowlist("site.org", &[]));
}

#[test]
fn validate_refreshed_list_refuses_short_lists() {
    let small = parse_blocklist_text("a.com\nb.com\n");
    match validate_refreshed_list(small) {
        Err(RefreshError::TooFewEntries(n)) => assert_eq!(n, 2),
        Ok(_) => panic!("a two-host list must be refused"),
    }
    let mut big = HostSet::new();
    for i in 0..50_000 {
        big.insert(&format!("h{i}.example"));
    }
    match validate_refreshed_list(big) {
        Ok(s) => {
            assert_eq!(s.len(), 50_005);
            assert!(s.contains("criteo.com"));
            assert!(s.contains("connect.facebook.net"));
        }
        Err(_) => panic!("a full list must be accepted"),
    }
}

#[test]
fn blocklist_staleness_after_a_week() {
    let week: i64 = 604_800_000;
    assert!(blocklist_is_stale(None, 0));
    assert!(!blocklist_is_stale(Some(1_000), 1_000 + week - 1));
    assert!(blocklist_is_stale(Some(1_000), 1_000 + week));
    assert!(!blocklist_is_stale(Some(i64::MAX), i64::MIN));
    assert_eq!(saturating_sub_i64(i64::MAX, -1), i64::MAX);
    assert_eq!(saturating_sub_i64(i64::MIN, 1), i64::MIN);
    assert_eq!(saturating_sub_i64(10, 3), 7);
}

#[test]
fn render_blocklist_sorted_with_header() {
    let set = parse_blocklist_text("zeta.com\nalpha.com\nmid.org\n");
    let text = render_blocklist(&set, 1_700_000_000_000);
    let expected = "# Kite content-blocking blocklist - runtime refresh, do not hand-edit\n\
# Source: https://raw.githubusercontent.com/StevenBlack/hosts/master/hosts\n\
# Refreshed at (unix ms): 1700000000000\n\
# 3 entries (includes hand-picked additions)\n#\n\
alpha.com\nmid.org\nzeta.com\n";
    assert_eq!(text, expected);
}

#[test]
fn rendered_blocklist_reads_back_the_same_hosts() {
    let set = parse_blocklist_text("b.example\na.example\nc.example\n");
    let text = render_blocklist(&set, -5);
    assert!(text.contains("# Refreshed at (unix ms): -5\n"));
    let again = parse_blocklist_text(&text);
    assert_eq!(again.len(), 3);
    for h in ["a.example", "b.example", "c.example"] {
        assert!(again.contains(h));
    }
}

#[test]
fn initial_blocklist_prefers_a_sane_saved_list() {
    let bundled = "bundled.example\n";
    assert!(initial_blocklist(None, bundled).contains("bundled.example"));
    let short = initial_blocklist(Some("saved.example\n"), bundled);
    assert!(short.contains("bundled.example"));
    assert!(!short.contains("saved.example"));
    let mut big = String::new();
    for i in 0..50_000 {
        big.push_str(&format!("h{i}.saved\n"));
    }
    let full = initial_blocklist(Some(&big), bundled);
    assert_eq!(full.len(), 50_000);
    assert!(!full.contains("bundled.example"));
}

#[test]
fn refresh_error_message_names_the_count() {
    assert_eq!(
        RefreshError::TooFewEntries(12).message(),
        "parsed only 12 entries (expected at least 50000) - looks like a bad or truncated fetch, keeping the current list"
    );
}
