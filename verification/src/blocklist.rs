//! Content blocking: parsing host lists, matching request hosts against
//! them, the per-site allowlist, and the rules for refreshing the list.
use vstd::prelude::*;
use crate::encoding::{dec_digit, dec_digits, push_decimal, push_signed, signed_digits};
use crate::hostset::HostSet;
use crate::order::{insert_sorted_unique, strictly_sorted};
use crate::text::{
    index_of, is_ws, lemma_index_of, lemma_index_of_at, strip_cr, trim_end, trim_start,
    after_first_word, before_char, chars_eq, chars_eq_str, chars_of, find_char_from, first_word,
    has_suffix, lines, lowercase, lowercase_chars, push_str, second_word, slice_to_vec, split_lines, trim,
    trim_chars, word_bounds,
};

verus! {

/// A fetched or stored list with fewer entries than this is taken to be a
/// bad or truncated response and is never used.
pub const BLOCKLIST_MIN_SANE_ENTRIES: usize = 50_000;

/// Minimum age, in milliseconds, of the last refresh before the list is
/// refreshed again at startup (seven days).
pub const BLOCKLIST_AUTO_REFRESH_INTERVAL_MS: i64 = 604_800_000;

/// Where refreshed lists are fetched from.
pub const BLOCKLIST_SOURCE_URL: &'static str = "https://raw.githubusercontent.com/StevenBlack/hosts/master/hosts";

// ---------------------------------------------------------------------
// Specifications
// ---------------------------------------------------------------------

/// The housekeeping names of a hosts file that map real machines, not
/// ad or tracking domains.
pub open spec fn is_skipped_host(h: Seq<char>) -> bool {
    h == "0.0.0.0"@ || h == "localhost"@ || h == "localhost.localdomain"@ || h == "local"@ || h
        == "broadcasthost"@ || h == "ip6-localhost"@ || h == "ip6-loopback"@
}

/// The blocked host a line of a StevenBlack hosts file names, if any: the
/// line is cut at `#` and trimmed, and must read `0.0.0.0 <host> ...` with
/// a host that is not one of the housekeeping names.
pub open spec fn hosts_line_entry(line: Seq<char>) -> Option<Seq<char>> {
    let t = trim(before_char(line, '#'));
    let ip = first_word(t);
    let host = second_word(t);
    if ip.len() == 0 || host.len() == 0 || ip != "0.0.0.0"@ || is_skipped_host(host) {
        None
    } else {
        Some(lowercase(host))
    }
}

/// The hosts a StevenBlack hosts file blocks.
pub open spec fn stevenblack_hosts(text: Seq<char>) -> Set<Seq<char>> {
    Set::new(
        |h: Seq<char>|
            exists|i: int| 0 <= i < lines(text).len() && hosts_line_entry(lines(text)[i]) == Some(h),
    )
}

/// The host a line of a plain blocklist names: the trimmed line, unless it
/// is empty or a `#` comment.
pub open spec fn blocklist_line_entry(line: Seq<char>) -> Option<Seq<char>> {
    let t = trim(line);
    if t.len() == 0 || t[0] == '#' {
        None
    } else {
        Some(lowercase(t))
    }
}

/// The hosts a plain blocklist (one host per line) names.
pub open spec fn blocklist_hosts(text: Seq<char>) -> Set<Seq<char>> {
    Set::new(
        |h: Seq<char>|
            exists|i: int|
                0 <= i < lines(text).len() && blocklist_line_entry(lines(text)[i]) == Some(h),
    )
}

/// `h` is blocked by `list`: it is listed itself, or one of its parent
/// domains (what follows one of its dots) is.
pub open spec fn blocked_in(list: Set<Seq<char>>, h: Seq<char>) -> bool {
    list.contains(h) || exists|i: int|
        0 <= i < h.len() - 1 && h[i] == '.' && list.contains(#[trigger] h.skip(i + 1))
}

/// `h` and the allowlist entry `e` name the same site: equal, or one is a
/// subdomain of the other.
pub open spec fn allow_match(h: Seq<char>, e: Seq<char>) -> bool {
    h == e || has_suffix(h, seq!['.'] + e) || has_suffix(e, seq!['.'] + h)
}

/// `host` matches some entry of `allowlist`, both compared lower-cased.
pub open spec fn matches_allowlist(host: Seq<char>, allowlist: Seq<Seq<char>>) -> bool {
    exists|i: int|
        0 <= i < allowlist.len() && allow_match(lowercase(host), lowercase(#[trigger] allowlist[i]))
}

/// The hand-picked trackers added to every refreshed list.
pub open spec fn hand_picked_hosts() -> Seq<Seq<char>> {
    seq![
        "connect.facebook.net"@,
        "adservice.google.com"@,
        "criteo.com"@,
        "taboola.com"@,
        "outbrain.com"@,
    ]
}

/// `now - last`, clamped to the range of `i64`.
pub open spec fn saturating_diff(now: i64, last: i64) -> int {
    let d = now - last;
    if d > i64::MAX {
        i64::MAX as int
    } else if d < i64::MIN {
        i64::MIN as int
    } else {
        d
    }
}

/// Whether the list is due for a refresh at startup.
pub open spec fn is_stale(last_refresh: Option<i64>, now: i64) -> bool {
    match last_refresh {
        None => true,
        Some(last) => saturating_diff(now, last) >= BLOCKLIST_AUTO_REFRESH_INTERVAL_MS,
    }
}

// ---------------------------------------------------------------------
// Executable functions
// ---------------------------------------------------------------------

/// Whether `h` is one of the housekeeping names of a hosts file.
fn skipped_host(h: &[char]) -> (r: bool)
    ensures
        r == is_skipped_host(h@),
{
    chars_eq_str(h, "0.0.0.0") || chars_eq_str(h, "localhost") || chars_eq_str(
        h,
        "localhost.localdomain",
    ) || chars_eq_str(h, "local") || chars_eq_str(h, "broadcasthost") || chars_eq_str(
        h,
        "ip6-localhost",
    ) || chars_eq_str(h, "ip6-loopback")
}

/// The blocked host one line of a hosts file names, if any.
fn hosts_line(line: &[char]) -> (r: Option<Vec<char>>)
    ensures
        match r {
            Some(h) => hosts_line_entry(line@) == Some(h@),
            None => hosts_line_entry(line@) is None,
        },
{
    let cut = match find_char_from(line, '#', 0) {
        Some(k) => slice_to_vec(line, 0, k),
        None => slice_to_vec(line, 0, line.len()),
    };
    proof {
        assert(line@.skip(0) == line@);
        assert(line@.subrange(0, line@.len() as int) == line@);
        assert(cut@ == before_char(line@, '#'));
    }
    let t = trim_chars(cut.as_slice());
    let (s1, e1) = word_bounds(t.as_slice(), 0);
    let (s2, e2) = word_bounds(t.as_slice(), e1);
    proof {
        assert(t@.skip(0) == t@);
        assert(first_word(t@) == t@.subrange(s1 as int, e1 as int));
        assert(after_first_word(t@) == t@.skip(e1 as int));
        assert(second_word(t@) == t@.subrange(s2 as int, e2 as int));
    }
    if e1 == s1 || e2 == s2 {
        return None;
    }
    let ip = slice_to_vec(t.as_slice(), s1, e1);
    let host = slice_to_vec(t.as_slice(), s2, e2);
    if !chars_eq_str(ip.as_slice(), "0.0.0.0") || skipped_host(host.as_slice()) {
        return None;
    }
    Some(lowercase_chars(host.as_slice()))
}

/// The host one line of a plain blocklist names, if any.
fn blocklist_line(line: &[char]) -> (r: Option<Vec<char>>)
    ensures
        match r {
            Some(h) => blocklist_line_entry(line@) == Some(h@),
            None => blocklist_line_entry(line@) is None,
        },
{
    let t = trim_chars(line);
    if t.len() == 0 || t[0] == '#' {
        return None;
    }
    Some(lowercase_chars(t.as_slice()))
}

/// Parses the StevenBlack hosts-file format: one `0.0.0.0 <host>` line per
/// blocked host, among comments, blank lines and a few housekeeping entries
/// that are skipped. Anything else is ignored rather than an error.
pub fn parse_stevenblack_hosts(text: &str) -> (r: HostSet)
    ensures
        r.wf(),
        r@ == stevenblack_hosts(text@),
{
    let cs = chars_of(text);
    let ls = split_lines(cs.as_slice());
    let mut set = HostSet::new();
    let mut i: usize = 0;
    while i < ls.len()
        invariant
            set.wf(),
            i <= ls@.len(),
            ls@.len() == lines(text@).len(),
            forall|m: int| 0 <= m < ls@.len() ==> (#[trigger] ls@[m])@ == lines(text@)[m],
            set@ == Set::new(
                |h: Seq<char>|
                    exists|m: int|
                        0 <= m < i && hosts_line_entry(lines(text@)[m]) == Some(h),
            ),
        decreases ls@.len() - i,
    {
        let ghost before = set@;
        match hosts_line(ls[i].as_slice()) {
            Some(h) => {
                set.insert_chars(h);
            },
            None => {},
        }
        proof {
            assert(ls@[i as int]@ == lines(text@)[i as int]);
            assert(set@ =~= Set::new(
                |h: Seq<char>|
                    exists|m: int|
                        0 <= m < i + 1 && hosts_line_entry(lines(text@)[m]) == Some(h),
            ));
        }
        i = i + 1;
    }
    assert(set@ =~= stevenblack_hosts(text@));
    set
}

/// Parses a plain blocklist: one host per line, blank lines and `#`
/// comments skipped, hosts lower-cased.
pub fn parse_blocklist_text(text: &str) -> (r: HostSet)
    ensures
        r.wf(),
        r@ == blocklist_hosts(text@),
{
    let cs = chars_of(text);
    let ls = split_lines(cs.as_slice());
    let mut set = HostSet::new();
    let mut i: usize = 0;
    while i < ls.len()
        invariant
            set.wf(),
            i <= ls@.len(),
            ls@.len() == lines(text@).len(),
            forall|m: int| 0 <= m < ls@.len() ==> (#[trigger] ls@[m])@ == lines(text@)[m],
            set@ == Set::new(
                |h: Seq<char>|
                    exists|m: int|
                        0 <= m < i && blocklist_line_entry(lines(text@)[m]) == Some(h),
            ),
        decreases ls@.len() - i,
    {
        match blocklist_line(ls[i].as_slice()) {
            Some(h) => {
                set.insert_chars(h);
            },
            None => {},
        }
        proof {
            assert(ls@[i as int]@ == lines(text@)[i as int]);
            assert(set@ =~= Set::new(
                |h: Seq<char>|
                    exists|m: int|
                        0 <= m < i + 1 && blocklist_line_entry(lines(text@)[m]) == Some(h),
            ));
        }
        i = i + 1;
    }
    assert(set@ =~= blocklist_hosts(text@));
    set
}

/// The fallback list in force before any refreshed list is loaded: the
/// bundled blocklist text, parsed.
pub fn blocklist(bundled: &str) -> (r: HostSet)
    ensures
        r.wf(),
        r@ == blocklist_hosts(bundled@),
{
    parse_blocklist_text(bundled)
}

/// Whether a request to `host` is blocked by `list`: the host, lower-cased,
/// is listed, or one of its parent domains is (so listing
/// `googlesyndication.com` also blocks `pagead2.googlesyndication.com`).
pub fn is_blocked_host(list: &HostSet, host: &str) -> (r: bool)
    requires
        list.wf(),
    ensures
        r == blocked_in(list@, lowercase(host@)),
{
    let h = lowercase_chars(chars_of(host).as_slice());
    if list.contains_chars(h.as_slice()) {
        return true;
    }
    let n = h.len();
    let mut i: usize = 0;
    while i < n
        invariant
            list.wf(),
            i <= n,
            n == h@.len(),
            h@ == lowercase(host@),
            !list@.contains(h@),
            forall|j: int| 0 <= j < i && j < n - 1 && h@[j] == '.' ==> !list@.contains(
                #[trigger] h@.skip(j + 1),
            ),
        decreases n - i,
    {
        if i + 1 < n && h[i] == '.' {
            let rest = slice_to_vec(h.as_slice(), i + 1, n);
            assert(rest@ == h@.skip(i + 1));
            if list.contains_chars(rest.as_slice()) {
                assert(blocked_in(list@, h@));
                return true;
            }
        }
        i = i + 1;
    }
    false
}

/// Whether `host` is on the per-site allowlist: equal to an entry, or a
/// subdomain of one, or one of the entry's parent domains. Compared
/// lower-cased; a plain host-name comparison, not one aware of public
/// suffixes.
pub fn host_matches_allowlist(host: &str, allowlist: &[String]) -> (r: bool)
    ensures
        r == matches_allowlist(host@, allowlist@.map_values(|s: String| s@)),
{
    let h = lowercase_chars(chars_of(host).as_slice());
    let mut dot_h = Vec::new();
    dot_h.push('.');
    let mut j: usize = 0;
    while j < h.len()
        invariant
            j <= h@.len(),
            dot_h@ == seq!['.'] + h@.take(j as int),
        decreases h@.len() - j,
    {
        dot_h.push(h[j]);
        assert(h@.take(j + 1) == h@.take(j as int).push(h@[j as int]));
        j = j + 1;
    }
    assert(h@.take(h@.len() as int) == h@);
    let ghost entries = allowlist@.map_values(|s: String| s@);
    let mut i: usize = 0;
    while i < allowlist.len()
        invariant
            i <= allowlist@.len(),
            entries == allowlist@.map_values(|s: String| s@),
            entries.len() == allowlist@.len(),
            forall|m: int| 0 <= m < allowlist@.len() ==> #[trigger] entries[m] == allowlist@[m]@,
            h@ == lowercase(host@),
            dot_h@ == seq!['.'] + h@,
            forall|m: int|
                0 <= m < i ==> !allow_match(lowercase(host@), lowercase(#[trigger] entries[m])),
        decreases allowlist@.len() - i,
    {
        let e = lowercase_chars(chars_of(allowlist[i].as_str()).as_slice());
        let mut dot_e = Vec::new();
        dot_e.push('.');
        let mut k: usize = 0;
        while k < e.len()
            invariant
                k <= e@.len(),
                dot_e@ == seq!['.'] + e@.take(k as int),
            decreases e@.len() - k,
        {
            dot_e.push(e[k]);
            assert(e@.take(k + 1) == e@.take(k as int).push(e@[k as int]));
            k = k + 1;
        }
        assert(e@.take(e@.len() as int) == e@);
        assert(entries[i as int] == allowlist@[i as int]@);
        if chars_eq(h.as_slice(), e.as_slice()) || ends_with_chars(h.as_slice(), dot_e.as_slice())
            || ends_with_chars(e.as_slice(), dot_h.as_slice()) {
            assert(allow_match(lowercase(host@), lowercase(entries[i as int])));
            return true;
        }
        i = i + 1;
    }
    false
}

/// Whether `cs` ends with the characters of `p`.
fn ends_with_chars(cs: &[char], p: &[char]) -> (r: bool)
    ensures
        r == has_suffix(cs@, p@),
{
    if p.len() > cs.len() {
        return false;
    }
    let tail = slice_to_vec(cs, cs.len() - p.len(), cs.len());
    assert(cs@.subrange(cs@.len() - p@.len(), cs@.len() as int) == cs@.skip(
        cs@.len() - p@.len(),
    ));
    chars_eq(tail.as_slice(), p)
}

/// Why a refreshed list was not used.
pub enum RefreshError {
    /// The list parsed to fewer than `BLOCKLIST_MIN_SANE_ENTRIES` hosts.
    TooFewEntries(usize),
}

/// Checks a freshly parsed list: one with fewer than
/// `BLOCKLIST_MIN_SANE_ENTRIES` hosts is refused; otherwise the
/// hand-picked trackers are added and the list is returned.
pub fn validate_refreshed_list(hosts: HostSet) -> (r: Result<HostSet, RefreshError>)
    requires
        hosts.wf(),
    ensures
        match r {
            Ok(s) => hosts@.len() >= BLOCKLIST_MIN_SANE_ENTRIES && s.wf() && s@ == hosts@ + hand_picked_hosts().to_set(),
            Err(RefreshError::TooFewEntries(n)) => n == hosts@.len() && n < BLOCKLIST_MIN_SANE_ENTRIES,
        },
{
    let n = hosts.len();
    if n < BLOCKLIST_MIN_SANE_ENTRIES {
        return Err(RefreshError::TooFewEntries(n));
    }
    let mut s = hosts;
    s.insert("connect.facebook.net");
    s.insert("adservice.google.com");
    s.insert("criteo.com");
    s.insert("taboola.com");
    s.insert("outbrain.com");
    assert(s@ =~= hosts@ + hand_picked_hosts().to_set()) by {
        assert forall|x: Seq<char>| hand_picked_hosts().to_set().contains(x) <==> (x
            == "connect.facebook.net"@ || x == "adservice.google.com"@ || x == "criteo.com"@ || x
            == "taboola.com"@ || x == "outbrain.com"@) by {
            if hand_picked_hosts().contains(x) {
                let i = choose|i: int| 0 <= i < hand_picked_hosts().len() && hand_picked_hosts()[i] == x;
            }
            if x == "connect.facebook.net"@ {
                assert(hand_picked_hosts()[0] == x);
            }
            if x == "adservice.google.com"@ {
                assert(hand_picked_hosts()[1] == x);
            }
            if x == "criteo.com"@ {
                assert(hand_picked_hosts()[2] == x);
            }
            if x == "taboola.com"@ {
                assert(hand_picked_hosts()[3] == x);
            }
            if x == "outbrain.com"@ {
                assert(hand_picked_hosts()[4] == x);
            }
        }
    }
    Ok(s)
}

/// `now - last`, clamped to the range of `i64` (`i64::saturating_sub`).
pub fn saturating_sub_i64(now: i64, last: i64) -> (r: i64)
    ensures
        r == saturating_diff(now, last),
{
    if last < 0 && now > i64::MAX + last {
        i64::MAX
    } else if last > 0 && now < i64::MIN + last {
        i64::MIN
    } else {
        now - last
    }
}

/// Whether the startup check should refresh the list: never refreshed, or
/// the last refresh is at least `BLOCKLIST_AUTO_REFRESH_INTERVAL_MS` old.
pub fn blocklist_is_stale(last_refresh: Option<i64>, now: i64) -> (r: bool)
    ensures
        r == is_stale(last_refresh, now),
{
    match last_refresh {
        None => true,
        Some(last) => saturating_sub_i64(now, last) >= BLOCKLIST_AUTO_REFRESH_INTERVAL_MS,
    }
}

/// First line of a refreshed blocklist written to disk.
pub const BLOCKLIST_FILE_HEADER: &'static str = "# Kite content-blocking blocklist - runtime refresh, do not hand-edit\n";

/// The hosts, one per line, each line ended by a newline.
pub open spec fn host_lines(hosts: Seq<Seq<char>>) -> Seq<char>
    decreases hosts.len(),
{
    if hosts.len() == 0 {
        Seq::empty()
    } else {
        host_lines(hosts.drop_last()) + hosts.last() + "\n"@
    }
}

/// The comment header of a refreshed blocklist file.
pub open spec fn blocklist_file_header(count: nat, refreshed_at: i64) -> Seq<char> {
    BLOCKLIST_FILE_HEADER@ + "# Source: "@ + BLOCKLIST_SOURCE_URL@ + "\n"@
        + "# Refreshed at (unix ms): "@ + signed_digits(refreshed_at as int) + "\n"@ + "# "@
        + dec_digits(count) + " entries (includes hand-picked additions)\n#\n"@
}

/// A refreshed blocklist file: the header, then the hosts in order.
pub open spec fn blocklist_file_text(hosts: Seq<Seq<char>>, refreshed_at: i64) -> Seq<char> {
    blocklist_file_header(hosts.len(), refreshed_at) + host_lines(hosts)
}

/// The text of a refreshed blocklist as written to disk: a comment header
/// (source, refresh time, entry count), then every host on its own line,
/// sorted.
pub fn render_blocklist(hosts: &HostSet, refreshed_at: i64) -> (r: String)
    requires
        hosts.wf(),
    ensures
        exists|sorted: Seq<Seq<char>>|
            strictly_sorted(sorted) && sorted.to_set() == hosts@ && r@ == blocklist_file_text(
                sorted,
                refreshed_at,
            ),
{
    let all = hosts.to_strings();
    let mut sorted: Vec<String> = Vec::new();
    let mut i: usize = 0;
    while i < all.len()
        invariant
            i <= all@.len(),
            strictly_sorted(sorted@.map_values(|s: String| s@)),
            sorted@.map_values(|s: String| s@).to_set() == all@.take(i as int).map_values(
                |s: String| s@,
            ).to_set(),
        decreases all@.len() - i,
    {
        proof {
            assert(all@.take(i as int + 1).map_values(|s: String| s@) =~= all@.take(i as int).map_values(
                |s: String| s@,
            ).push(all@[i as int]@));
            all@.take(i as int).map_values(|s: String| s@).lemma_push_to_set_commute(all@[i as int]@);
        }
        insert_sorted_unique(&mut sorted, all[i].clone());
        i = i + 1;
    }
    let ghost sv = sorted@.map_values(|s: String| s@);
    proof {
        assert(all@.take(all@.len() as int) =~= all@);
        let av = all@.map_values(|s: String| s@);
        assert(av.to_set() =~= hosts@) by {
            assert forall|x: Seq<char>| av.to_set().contains(x) <==> hosts@.contains(x) by {
                if av.to_set().contains(x) {
                    let k = choose|k: int| 0 <= k < av.len() && av[k] == x;
                    assert(hosts@.contains(all@[k]@));
                }
                if hosts@.contains(x) {
                    let k = choose|k: int| 0 <= k < all@.len() && all@[k]@ == x;
                    assert(av[k] == x);
                }
            }
        }
    }
    let mut r = String::new();
    push_str(&mut r, BLOCKLIST_FILE_HEADER);
    push_str(&mut r, "# Source: ");
    push_str(&mut r, BLOCKLIST_SOURCE_URL);
    push_str(&mut r, "\n");
    push_str(&mut r, "# Refreshed at (unix ms): ");
    push_signed(&mut r, refreshed_at);
    push_str(&mut r, "\n");
    push_str(&mut r, "# ");
    push_decimal(&mut r, sorted.len() as u64);
    push_str(&mut r, " entries (includes hand-picked additions)\n#\n");
    assert(r@ =~= blocklist_file_header(sv.len(), refreshed_at));
    let mut j: usize = 0;
    while j < sorted.len()
        invariant
            j <= sorted@.len(),
            sv == sorted@.map_values(|s: String| s@),
            r@ == blocklist_file_header(sv.len(), refreshed_at) + host_lines(sv.take(j as int)),
        decreases sorted@.len() - j,
    {
        push_str(&mut r, sorted[j].as_str());
        push_str(&mut r, "\n");
        proof {
            assert(sv.take(j as int + 1).drop_last() =~= sv.take(j as int));
            assert(sv.take(j as int + 1).last() == sorted@[j as int]@);
        }
        j = j + 1;
    }
    assert(sv.take(sv.len() as int) =~= sv);
    r
}

impl RefreshError {
    /// The message the refresh reports for the error.
    pub fn message(&self) -> (r: String)
        ensures
            match self {
                RefreshError::TooFewEntries(n) => r@ == "parsed only "@ + dec_digits(*n as nat)
                    + " entries (expected at least 50000) - looks like a bad or truncated fetch, keeping the current list"@,
            },
    {
        match self {
            RefreshError::TooFewEntries(n) => {
                let mut m = String::new();
                push_str(&mut m, "parsed only ");
                push_decimal(&mut m, *n as u64);
                push_str(
                    &mut m,
                    " entries (expected at least 50000) - looks like a bad or truncated fetch, keeping the current list",
                );
                m
            },
        }
    }
}

/// The list content blocking starts with: the refreshed list saved on disk
/// (`saved`, `None` when there is none or it cannot be read) when it parses
/// to at least `BLOCKLIST_MIN_SANE_ENTRIES` hosts, otherwise the bundled
/// one.
pub fn initial_blocklist(saved: Option<&str>, bundled: &str) -> (r: HostSet)
    ensures
        r.wf(),
        match saved {
            Some(t) => if blocklist_hosts(t@).len() >= BLOCKLIST_MIN_SANE_ENTRIES {
                r@ == blocklist_hosts(t@)
            } else {
                r@ == blocklist_hosts(bundled@)
            },
            None => r@ == blocklist_hosts(bundled@),
        },
{
    match saved {
        Some(t) => {
            let parsed = parse_blocklist_text(t);
            if parsed.len() >= BLOCKLIST_MIN_SANE_ENTRIES {
                parsed
            } else {
                blocklist(bundled)
            }
        },
        None => blocklist(bundled),
    }
}

// ---------------------------------------------------------------------
// Reading back a written list
// ---------------------------------------------------------------------

/// A host that reads back as itself from its own line: not empty, no
/// whitespace at either end, not a comment, and no line break in it.
pub open spec fn line_safe(h: Seq<char>) -> bool {
    &&& h.len() > 0
    &&& !is_ws(h[0])
    &&& !is_ws(h.last())
    &&& h[0] != '#'
    &&& forall|j: int| 0 <= j < h.len() ==> h[j] != '\n'
}

/// Text that is empty or ends with a line break: whole lines only.
pub open spec fn whole_lines(a: Seq<char>) -> bool {
    a.len() == 0 || a.last() == '\n'
}

/// A line without a break, then a break, then the rest: the line comes
/// first.
pub proof fn lemma_lines_cons(l: Seq<char>, rest: Seq<char>)
    requires
        forall|j: int| 0 <= j < l.len() ==> l[j] != '\n',
    ensures
        lines(l + seq!['\n'] + rest) == seq![strip_cr(l)] + lines(rest),
{
    let s = l + seq!['\n'] + rest;
    assert forall|j: int| 0 <= j < l.len() implies s[j] != '\n' by {
        assert(s[j] == l[j]);
    }
    assert(s[l.len() as int] == '\n');
    lemma_index_of_at(s, '\n', l.len() as int);
    assert(s.take(l.len() as int) =~= l);
    assert(s.skip(l.len() as int + 1) =~= rest);
}

/// Whole lines followed by more text split into the lines of each.
pub proof fn lemma_lines_append(a: Seq<char>, b: Seq<char>)
    requires
        whole_lines(a),
    ensures
        lines(a + b) == lines(a) + lines(b),
    decreases a.len(),
{
    if a.len() == 0 {
        assert(a + b =~= b);
        assert(lines(a) =~= Seq::<Seq<char>>::empty());
        assert(lines(a) + lines(b) =~= lines(b));
    } else {
        lemma_index_of(a, '\n');
        assert(a[a.len() - 1] == '\n');
        let i = index_of(a, '\n')->0 as int;
        let l = a.take(i);
        let rest = a.skip(i + 1);
        assert(a =~= l + seq!['\n'] + rest);
        assert forall|j: int| 0 <= j < l.len() implies l[j] != '\n' by {
            assert(l[j] == a[j]);
        }
        lemma_lines_cons(l, rest);
        assert(a + b =~= l + seq!['\n'] + (rest + b));
        lemma_lines_cons(l, rest + b);
        assert(whole_lines(rest)) by {
            if rest.len() > 0 {
                assert(rest.last() == a.last());
            }
        }
        lemma_lines_append(rest, b);
        assert(seq![strip_cr(l)] + (lines(rest) + lines(b)) =~= (seq![strip_cr(l)] + lines(rest))
            + lines(b));
    }
}

/// The host lines are whole lines.
pub proof fn lemma_host_lines_whole(hosts: Seq<Seq<char>>)
    ensures
        whole_lines(host_lines(hosts)),
    decreases hosts.len(),
{
    if hosts.len() > 0 {
        reveal_strlit("\n");
        let t = host_lines(hosts.drop_last()) + hosts.last() + "\n"@;
        assert(t.last() == '\n');
    }
}

/// The lines of the host lines are the hosts (each without a trailing
/// carriage return).
pub proof fn lemma_host_lines_lines(hosts: Seq<Seq<char>>)
    requires
        forall|i: int| 0 <= i < hosts.len() ==> line_safe(#[trigger] hosts[i]),
    ensures
        lines(host_lines(hosts)) == hosts.map_values(|h: Seq<char>| strip_cr(h)),
    decreases hosts.len(),
{
    if hosts.len() == 0 {
        assert(lines(host_lines(hosts)) =~= hosts.map_values(|h: Seq<char>| strip_cr(h)));
    } else {
        reveal_strlit("\n");
        let init = hosts.drop_last();
        let h = hosts.last();
        assert forall|i: int| 0 <= i < init.len() implies line_safe(#[trigger] init[i]) by {
            assert(init[i] == hosts[i]);
        }
        lemma_host_lines_lines(init);
        lemma_host_lines_whole(init);
        assert(line_safe(hosts[hosts.len() - 1]));
        assert(host_lines(hosts) =~= host_lines(init) + (h + seq!['\n']));
        lemma_lines_append(host_lines(init), h + seq!['\n']);
        assert(h + seq!['\n'] =~= h + seq!['\n'] + Seq::<char>::empty());
        lemma_lines_cons(h, Seq::<char>::empty());
        assert(lines(Seq::<char>::empty()) =~= Seq::<Seq<char>>::empty());
        assert(lines(host_lines(hosts)) =~= hosts.map_values(|h: Seq<char>| strip_cr(h)));
    }
}

/// A line that starts with `#` names no host.
pub proof fn lemma_comment_line(l: Seq<char>)
    requires
        l.len() > 0,
        l[0] == '#',
    ensures
        blocklist_line_entry(strip_cr(l)) is None,
{
    let c = strip_cr(l);
    assert(c.len() > 0 && c[0] == '#') by {
        if l.len() == 1 {
            assert(l.last() == '#');
        }
    }
    assert(!is_ws('#'));
    assert(trim_start(c) == c);
    lemma_trim_end_keeps_first(c);
}

/// `trim_end` keeps a first character that is not whitespace.
pub proof fn lemma_trim_end_keeps_first(s: Seq<char>)
    requires
        s.len() > 0,
        !is_ws(s[0]),
    ensures
        trim_end(s).len() > 0,
        trim_end(s)[0] == s[0],
    decreases s.len(),
{
    if is_ws(s.last()) {
        assert(s.len() > 1);
        assert(s.drop_last()[0] == s[0]);
        lemma_trim_end_keeps_first(s.drop_last());
    }
}

/// A line-safe host's line names the host, lower-cased.
pub proof fn lemma_host_line(h: Seq<char>)
    requires
        line_safe(h),
    ensures
        strip_cr(h) == h,
        blocklist_line_entry(strip_cr(h)) == Some(lowercase(h)),
{
    assert(h.last() != '\r') by {
        assert(is_ws('\r'));
    }
    assert(trim_start(h) == h);
    assert(trim_end(h) == h);
}

/// Decimal digits hold no line break.
pub proof fn lemma_digits_no_break(n: nat)
    ensures
        forall|j: int| 0 <= j < dec_digits(n).len() ==> #[trigger] dec_digits(n)[j] != '\n',
    decreases n,
{
    if n >= 10 {
        lemma_digits_no_break(n / 10);
        let d = dec_digits(n / 10);
        assert forall|j: int| 0 <= j < dec_digits(n).len() implies #[trigger] dec_digits(n)[j] != '\n' by {
            if j < d.len() {
                assert(dec_digits(n)[j] == d[j]);
            } else {
                assert(dec_digits(n)[j] == dec_digit(n % 10));
            }
        }
    } else {
        assert(dec_digits(n)[0] == dec_digit(n));
    }
}

/// Text without line breaks.
pub open spec fn no_break(s: Seq<char>) -> bool {
    forall|j: int| 0 <= j < s.len() ==> s[j] != '\n'
}

/// The header of a written list is five comment lines.
pub proof fn lemma_header_lines(n: nat, t: i64, rest: Seq<char>)
    ensures
        lines(blocklist_file_header(n, t) + rest).len() == 5 + lines(rest).len(),
        lines(blocklist_file_header(n, t) + rest).skip(5) == lines(rest),
        forall|k: int|
            0 <= k < 5 ==> blocklist_line_entry(#[trigger] lines(blocklist_file_header(n, t) + rest)[k]) is None,
{
    reveal_strlit("# Kite content-blocking blocklist - runtime refresh, do not hand-edit\n");
    reveal_strlit("# Source: ");
    reveal_strlit("https://raw.githubusercontent.com/StevenBlack/hosts/master/hosts");
    reveal_strlit("\n");
    reveal_strlit("# Refreshed at (unix ms): ");
    reveal_strlit("# ");
    reveal_strlit(" entries (includes hand-picked additions)\n#\n");
    let nl = seq!['\n'];
    let a1 = BLOCKLIST_FILE_HEADER@.drop_last();
    let a2 = "# Source: "@ + BLOCKLIST_SOURCE_URL@;
    let a3 = "# Refreshed at (unix ms): "@ + signed_digits(t as int);
    let a4 = "# "@ + dec_digits(n) + " entries (includes hand-picked additions)\n#\n"@.take(41);
    let a5 = seq!['#'];
    assert(no_break(a1));
    assert(no_break(a2));
    lemma_digits_no_break(n);
    if t < 0 {
        lemma_digits_no_break((-t) as nat);
    } else {
        lemma_digits_no_break(t as nat);
    }
    assert(no_break(a3));
    assert(no_break(a4));
    let r5 = a5 + nl + rest;
    let r4 = a4 + nl + r5;
    let r3 = a3 + nl + r4;
    let r2 = a2 + nl + r3;
    let whole = a1 + nl + r2;
    let tail = " entries (includes hand-picked additions)\n#\n"@;
    assert(tail.len() == 44);
    assert(tail =~= tail.take(41) + nl + a5 + nl);
    assert(BLOCKLIST_FILE_HEADER@ =~= a1 + nl);
    assert(blocklist_file_header(n, t) =~= (a1 + nl) + "# Source: "@ + BLOCKLIST_SOURCE_URL@ + "\n"@
        + "# Refreshed at (unix ms): "@ + signed_digits(t as int) + "\n"@ + "# "@ + dec_digits(n)
        + (tail.take(41) + nl + a5 + nl));
    assert("\n"@ =~= nl);
    assert(blocklist_file_header(n, t) + rest =~= whole);
    lemma_lines_cons(a5, rest);
    lemma_lines_cons(a4, r5);
    lemma_lines_cons(a3, r4);
    lemma_lines_cons(a2, r3);
    lemma_lines_cons(a1, r2);
    lemma_comment_line(a1);
    lemma_comment_line(a2);
    lemma_comment_line(a3);
    lemma_comment_line(a4);
    lemma_comment_line(a5);
    let ls = lines(whole);
    assert(ls =~= seq![strip_cr(a1), strip_cr(a2), strip_cr(a3), strip_cr(a4), strip_cr(a5)] + lines(rest));
    assert(ls.skip(5) =~= lines(rest));
}

} // verus!
