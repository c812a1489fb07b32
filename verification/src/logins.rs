//! Saved logins: listing, saving, removing and revealing them, the pending
//! captures waiting for a save prompt, and what to offer a page's login form.
use vstd::prelude::*;
use crate::order::{
    chars_le, insert_sorted_unique, lemma_pair_total, lemma_pair_trans, pair_le, sorted_pairs,
    strictly_sorted,
};
use crate::encoding::{json_literal, json_quoted};
use crate::tabs::{eligible_host, TabState};
use crate::text::{
    chars_eq, chars_of, has_prefix, lowercase, push_str, str_eq, str_eq_ignore_ascii_case, to_lowercase,
    trim, trim_str,
};
use crate::vault::{
    encodable_len, entry_holds, entry_is,
    find_vault_entry_index, login_already_saved, login_pairs, sealed_from, summary_pairs,
    too_long_to_seal, usernames_for, vault_encrypt, vault_opened, EncryptedVaultEntry, EntryRead, VaultFile,
    VaultLoginSummary, AES_GCM_MAX_PLAINTEXT,
};

verus! {

broadcast use vstd::seq_lib::group_seq_properties, vstd::multiset::group_multiset_axioms;

/// Inserting an element into a sequence adds it to the multiset.
pub proof fn lemma_insert_multiset<A>(s: Seq<A>, p: int, x: A)
    requires
        0 <= p <= s.len(),
    ensures
        s.insert(p, x).to_multiset() =~= s.to_multiset().insert(x),
{
    let t = s.insert(p, x);
    assert(t.remove(p) =~= s);
    t.to_multiset_ensures();
    assert(t[p] == x);
    assert(t.contains(x));
    assert(t.to_multiset().count(x) > 0);
}

/// Whether summary `a` sorts no later than `b` (by host, then username).
fn summary_le(a: &VaultLoginSummary, b: &VaultLoginSummary) -> (r: bool)
    ensures
        r == pair_le((a.host@, a.username@), (b.host@, b.username@)),
{
    let ah = chars_of(a.host.as_str());
    let bh = chars_of(b.host.as_str());
    if chars_eq(ah.as_slice(), bh.as_slice()) {
        let au = chars_of(a.username.as_str());
        let bu = chars_of(b.username.as_str());
        chars_le(au.as_slice(), bu.as_slice())
    } else {
        chars_le(ah.as_slice(), bh.as_slice())
    }
}

/// Inserts `x` after every summary that sorts no later than it.
fn insert_sorted_summary(v: &mut Vec<VaultLoginSummary>, x: VaultLoginSummary)
    requires
        sorted_pairs(summary_pairs(old(v)@)),
    ensures
        sorted_pairs(summary_pairs(final(v)@)),
        summary_pairs(final(v)@).to_multiset() =~= summary_pairs(old(v)@).to_multiset().insert(
            (x.host@, x.username@),
        ),
{
    let ghost xp = (x.host@, x.username@);
    let mut p: usize = 0;
    loop
        invariant_except_break
            p <= v@.len(),
            xp == (x.host@, x.username@),
            forall|k: int| 0 <= k < p ==> pair_le(#[trigger] summary_pairs(v@)[k], xp),
        ensures
            p <= v@.len(),
            forall|k: int| 0 <= k < p ==> pair_le(#[trigger] summary_pairs(v@)[k], xp),
            p < v@.len() ==> !pair_le(summary_pairs(v@)[p as int], xp),
        decreases v@.len() - p,
    {
        if p >= v.len() {
            break;
        }
        assert(summary_pairs(v@)[p as int] == (v@[p as int].host@, v@[p as int].username@));
        if !summary_le(&v[p], &x) {
            break;
        }
        p = p + 1;
    }
    let ghost s = summary_pairs(v@);
    proof {
        if p < v@.len() {
            assert(!pair_le(s[p as int], xp));
            lemma_pair_total(s[p as int], xp);
            assert forall|j: int| p <= j < s.len() implies pair_le(xp, #[trigger] s[j]) by {
                if j > p {
                    lemma_pair_trans(xp, s[p as int], s[j]);
                }
            }
        }
    }
    v.insert(p, x);
    proof {
        assert(summary_pairs(v@) =~= s.insert(p as int, xp));
        lemma_insert_multiset(s, p as int, xp);
        let t = s.insert(p as int, xp);
        assert forall|i: int, j: int| 0 <= i < j < t.len() implies pair_le(t[i], t[j]) by {
            if j < p {
                assert(t[i] == s[i] && t[j] == s[j]);
            } else if j == p {
                assert(t[i] == s[i]);
            } else if i < p {
                assert(t[i] == s[i] && t[j] == s[j - 1]);
                lemma_pair_trans(s[i], xp, s[j - 1]);
            } else if i == p {
                assert(t[j] == s[j - 1]);
            } else {
                assert(t[i] == s[i - 1] && t[j] == s[j - 1]);
            }
        }
    }
}

/// The Passwords list: every readable login's host and username, sorted by
/// host then username; entries that could not be read are left out.
pub fn vault_list_logins(entries: &[EntryRead]) -> (r: Vec<VaultLoginSummary>)
    ensures
        sorted_pairs(summary_pairs(r@)),
        summary_pairs(r@).to_multiset() == login_pairs(entries@).to_multiset(),
{
    let mut v: Vec<VaultLoginSummary> = Vec::new();
    let mut i: usize = 0;
    while i < entries.len()
        invariant
            i <= entries@.len(),
            sorted_pairs(summary_pairs(v@)),
            summary_pairs(v@).to_multiset() == login_pairs(entries@.take(i as int)).to_multiset(),
        decreases entries@.len() - i,
    {
        assert(entries@.take(i as int + 1).drop_last() =~= entries@.take(i as int));
        match &entries[i] {
            EntryRead::Login(p) => {
                let s = VaultLoginSummary { host: p.host.clone(), username: p.username.clone() };
                insert_sorted_summary(&mut v, s);
            },
            EntryRead::Unreadable => {},
        }
        i = i + 1;
    }
    assert(entries@.take(entries@.len() as int) =~= entries@);
    v
}

/// The usernames saved for `host` (ASCII case ignored), sorted, each once;
/// entries that could not be read are skipped.
pub fn autofill_usernames(entries: &[EntryRead], host: &str) -> (r: Vec<String>)
    ensures
        strictly_sorted(r@.map_values(|s: String| s@)),
        r@.map_values(|s: String| s@).to_set() == usernames_for(entries@, host@),
{
    let mut v: Vec<String> = Vec::new();
    let mut i: usize = 0;
    while i < entries.len()
        invariant
            i <= entries@.len(),
            strictly_sorted(v@.map_values(|s: String| s@)),
            v@.map_values(|s: String| s@).to_set() == usernames_for(entries@.take(i as int), host@),
        decreases entries@.len() - i,
    {
        let ghost before = usernames_for(entries@.take(i as int), host@);
        let ghost after = usernames_for(entries@.take(i as int + 1), host@);
        match &entries[i] {
            EntryRead::Login(p) => {
                if str_eq_ignore_ascii_case(p.host.as_str(), host) {
                    let u = p.username.clone();
                    proof {
                        assert forall|y: Seq<char>| after.contains(y) <==> before.insert(u@).contains(y) by {
                            if after.contains(y) {
                                let k = choose|k: int| 0 <= k < i + 1 && entry_is(#[trigger] entries@.take(i as int + 1)[k], host@, y);
                                if k < i {
                                    assert(entries@.take(i as int)[k] == entries@.take(i as int + 1)[k]);
                                }
                            }
                            if before.contains(y) {
                                let k = choose|k: int| 0 <= k < i && entry_is(#[trigger] entries@.take(i as int)[k], host@, y);
                                assert(entries@.take(i as int)[k] == entries@.take(i as int + 1)[k]);
                            }
                            if y == u@ {
                                assert(entry_is(entries@.take(i as int + 1)[i as int], host@, y));
                            }
                        }
                        assert(after =~= before.insert(u@));
                    }
                    insert_sorted_unique(&mut v, u);
                } else {
                    proof {
                        assert forall|y: Seq<char>| after.contains(y) <==> before.contains(y) by {
                            if after.contains(y) {
                                let k = choose|k: int| 0 <= k < i + 1 && entry_is(#[trigger] entries@.take(i as int + 1)[k], host@, y);
                                if k < i {
                                    assert(entries@.take(i as int)[k] == entries@.take(i as int + 1)[k]);
                                }
                            }
                            if before.contains(y) {
                                let k = choose|k: int| 0 <= k < i && entry_is(#[trigger] entries@.take(i as int)[k], host@, y);
                                assert(entries@.take(i as int)[k] == entries@.take(i as int + 1)[k]);
                            }
                        }
                        assert(after =~= before);
                    }
                }
            },
            EntryRead::Unreadable => {
                proof {
                    assert forall|y: Seq<char>| after.contains(y) <==> before.contains(y) by {
                        if after.contains(y) {
                            let k = choose|k: int| 0 <= k < i + 1 && entry_is(#[trigger] entries@.take(i as int + 1)[k], host@, y);
                            if k < i {
                                assert(entries@.take(i as int)[k] == entries@.take(i as int + 1)[k]);
                            }
                        }
                        if before.contains(y) {
                            let k = choose|k: int| 0 <= k < i && entry_is(#[trigger] entries@.take(i as int)[k], host@, y);
                            assert(entries@.take(i as int)[k] == entries@.take(i as int + 1)[k]);
                        }
                    }
                    assert(after =~= before);
                }
            },
        }
        i = i + 1;
    }
    assert(entries@.take(entries@.len() as int) =~= entries@);
    v
}

// ---------------------------------------------------------------------
// Captured logins waiting for the save prompt
// ---------------------------------------------------------------------

/// Credentials a page's login form submitted; only ever held in memory.
pub struct PendingLoginCapture {
    pub host: String,
    pub username: String,
    pub password: String,
}

impl View for PendingLoginCapture {
    type V = (Seq<char>, Seq<char>, Seq<char>);

    /// Host, username and password.
    open spec fn view(&self) -> (Seq<char>, Seq<char>, Seq<char>) {
        (self.host@, self.username@, self.password@)
    }
}

/// The latest capture of each tab, by tab label.
pub struct PendingLogins {
    entries: Vec<(String, PendingLoginCapture)>,
}

impl View for PendingLogins {
    type V = Map<Seq<char>, (Seq<char>, Seq<char>, Seq<char>)>;

    /// Tab label to that tab's capture.
    closed spec fn view(&self) -> Map<Seq<char>, (Seq<char>, Seq<char>, Seq<char>)> {
        Map::new(
            |k: Seq<char>| exists|i: int| 0 <= i < self.entries@.len() && self.entries@[i].0@ == k,
            |k: Seq<char>|
                self.entries@[choose|i: int| 0 <= i < self.entries@.len() && self.entries@[i].0@ == k].1@,
        )
    }
}

impl PendingLogins {
    /// Each label appears once.
    pub closed spec fn wf(&self) -> bool {
        forall|i: int, j: int|
            0 <= i < j < self.entries@.len() ==> self.entries@[i].0@ != self.entries@[j].0@
    }

    /// Nothing pending.
    pub fn new() -> (m: Self)
        ensures
            m.wf(),
            m@ == Map::<Seq<char>, (Seq<char>, Seq<char>, Seq<char>)>::empty(),
    {
        let m = PendingLogins { entries: Vec::new() };
        assert(m@ =~= Map::<Seq<char>, (Seq<char>, Seq<char>, Seq<char>)>::empty());
        m
    }

    fn find(&self, label: &str) -> (r: Option<usize>)
        requires
            self.wf(),
        ensures
            match r {
                Some(i) => i < self.entries@.len() && self.entries@[i as int].0@ == label@,
                None => !self@.contains_key(label@),
            },
    {
        let mut i: usize = 0;
        while i < self.entries.len()
            invariant
                i <= self.entries@.len(),
                forall|j: int| 0 <= j < i ==> self.entries@[j].0@ != label@,
            decreases self.entries@.len() - i,
        {
            if str_eq(self.entries[i].0.as_str(), label) {
                return Some(i);
            }
            i = i + 1;
        }
        None
    }

    /// Removes and returns the capture pending for `label`.
    pub fn take(&mut self, label: &str) -> (r: Option<PendingLoginCapture>)
        requires
            old(self).wf(),
        ensures
            final(self).wf(),
            final(self)@ == old(self)@.remove(label@),
            match r {
                Some(c) => old(self)@.contains_key(label@) && old(self)@[label@] == c@,
                None => !old(self)@.contains_key(label@),
            },
    {
        let ghost old_view = self@;
        let ghost old_entries = self.entries@;
        let ghost k = label@;
        match self.find(label) {
            Some(i) => {
                proof {
                    assert(old_view.contains_key(k));
                    let c = choose|c: int| 0 <= c < old_entries.len() && old_entries[c].0@ == k;
                    assert(c == i);
                }
                let (_, cap) = self.entries.remove(i);
                proof {
                    assert forall|a: int, b: int|
                        0 <= a < b < self.entries@.len() implies self.entries@[a].0@
                        != self.entries@[b].0@ by {
                        let a2 = if a < i { a } else { a + 1 };
                        let b2 = if b < i { b } else { b + 1 };
                        assert(self.entries@[a] == old_entries[a2]);
                        assert(self.entries@[b] == old_entries[b2]);
                    }
                    assert(self@ =~= old_view.remove(k)) by {
                        assert forall|x: Seq<char>| #[trigger] self@.contains_key(x) <==> old_view.remove(k).contains_key(x) by {
                            if self@.contains_key(x) {
                                let c = choose|c: int| 0 <= c < self.entries@.len() && self.entries@[c].0@ == x;
                                let c2 = if c < i { c } else { c + 1 };
                                assert(old_entries[c2].0@ == x);
                                assert(c2 != i);
                            }
                            if old_view.remove(k).contains_key(x) {
                                let c = choose|c: int| 0 <= c < old_entries.len() && old_entries[c].0@ == x;
                                assert(c != i);
                                if c < i {
                                    assert(self.entries@[c].0@ == x);
                                } else {
                                    assert(self.entries@[c - 1].0@ == x);
                                }
                            }
                        }
                        assert forall|x: Seq<char>| #[trigger] self@.contains_key(x) implies self@[x] == old_view.remove(k)[x] by {
                            let c = choose|c: int| 0 <= c < self.entries@.len() && self.entries@[c].0@ == x;
                            let c2 = if c < i { c } else { c + 1 };
                            assert(old_entries[c2].0@ == x);
                            let d = choose|d: int| 0 <= d < old_entries.len() && old_entries[d].0@ == x;
                            assert(d == c2);
                        }
                    }
                }
                Some(cap)
            },
            None => {
                proof {
                    assert(self@ =~= old_view.remove(k));
                }
                None
            },
        }
    }

    /// Records `capture` as the one pending for `label`, replacing any
    /// earlier one.
    pub fn insert(&mut self, label: String, capture: PendingLoginCapture)
        requires
            old(self).wf(),
        ensures
            final(self).wf(),
            final(self)@ == old(self)@.insert(label@, capture@),
    {
        let ghost old_view = self@;
        let ghost k = label@;
        let ghost v = capture@;
        let _ = self.take(label.as_str());
        let ghost mid_view = self@;
        let ghost mid = self.entries@;
        assert(!mid_view.contains_key(k));
        self.entries.push((label, capture));
        proof {
            let n = mid.len();
            assert forall|a: int, b: int|
                0 <= a < b < self.entries@.len() implies self.entries@[a].0@ != self.entries@[b].0@ by {
                if b < n {
                    assert(mid[a].0@ != mid[b].0@);
                } else {
                    assert(self.entries@[a] == mid[a]);
                    if mid[a].0@ == k {
                        assert(mid_view.contains_key(k));
                    }
                }
            }
            assert(self@ =~= old_view.insert(k, v)) by {
                assert forall|x: Seq<char>| #[trigger] self@.contains_key(x) <==> old_view.insert(k, v).contains_key(x) by {
                    if self@.contains_key(x) {
                        let c = choose|c: int| 0 <= c < self.entries@.len() && self.entries@[c].0@ == x;
                        if c < n {
                            assert(mid[c].0@ == x);
                            assert(mid_view.contains_key(x));
                        }
                    }
                    if old_view.contains_key(x) && x != k {
                        assert(mid_view.contains_key(x));
                        let c = choose|c: int| 0 <= c < mid.len() && mid[c].0@ == x;
                        assert(self.entries@[c].0@ == x);
                    }
                    if x == k {
                        assert(self.entries@[n as int].0@ == x);
                    }
                }
                assert forall|x: Seq<char>| #[trigger] self@.contains_key(x) implies self@[x] == old_view.insert(k, v)[x] by {
                    let c = choose|c: int| 0 <= c < self.entries@.len() && self.entries@[c].0@ == x;
                    if x == k {
                        if c < n {
                            assert(mid[c].0@ == k);
                            assert(mid_view.contains_key(k));
                        }
                    } else {
                        assert(c < n);
                        assert(mid[c].0@ == x);
                        assert(mid_view.contains_key(x));
                        let d = choose|d: int| 0 <= d < mid.len() && mid[d].0@ == x;
                        assert(d == c);
                        assert(mid_view[x] == old_view[x]);
                    }
                }
            }
        }
    }
}

// ---------------------------------------------------------------------
// Saving, removing and revealing logins
// ---------------------------------------------------------------------

/// The entry holds a fresh sealing of `plaintext` under `key`.
pub open spec fn sealed_entry(key: Seq<u8>, e: EncryptedVaultEntry, plaintext: Seq<u8>) -> bool {
    sealed_from(key, e.nonce@, e.ciphertext@, plaintext) && vault_opened(
        key,
        e.nonce@,
        e.ciphertext@,
    ) == Some(plaintext)
}

/// `i` is the first entry of `host` and `username`.
pub open spec fn first_entry_at(es: Seq<EntryRead>, host: Seq<char>, username: Seq<char>, i: int) -> bool {
    0 <= i < es.len() && entry_is(es[i], host, username) && forall|k: int|
        0 <= k < i ==> !entry_is(#[trigger] es[k], host, username)
}

/// No entry is of `host` and `username`.
pub open spec fn no_entry(es: Seq<EntryRead>, host: Seq<char>, username: Seq<char>) -> bool {
    forall|k: int| 0 <= k < es.len() ==> !entry_is(#[trigger] es[k], host, username)
}

/// The file's salt and verifier are those of `b`.
pub open spec fn same_header(a: VaultFile, b: VaultFile) -> bool {
    a.kdf_salt == b.kdf_salt && a.verifier_nonce == b.verifier_nonce && a.verifier_ciphertext
        == b.verifier_ciphertext
}

/// Saves a login's plaintext (`plaintext`, its JSON form) sealed under
/// `key`. `entries` are the file's entries as read under the same key; the
/// entry already saved for the same host (ASCII case ignored) and username
/// is replaced in place, otherwise the new one is appended; entries that
/// could not be read are skipped. Returns whether an entry was replaced.
/// Encryption failing (a plaintext over 2^36 bytes, or the random nonce
/// not drawn) leaves the file unchanged.
pub fn store_login(
    file: &mut VaultFile,
    key: &[u8; 32],
    plaintext: &[u8],
    entries: &[EntryRead],
    host: &str,
    username: &str,
) -> (r: Result<bool, String>)
    requires
        entries@.len() == old(file).entries@.len(),
        encodable_len(plaintext@.len() + 16),
    ensures
        same_header(*final(file), *old(file)),
        plaintext@.len() > AES_GCM_MAX_PLAINTEXT ==> r is Err,
        match r {
            Err(m) => (has_prefix(m@, "random number generator failed: "@) || (plaintext@.len()
                > AES_GCM_MAX_PLAINTEXT && m@ == too_long_to_seal())) && *final(file) == *old(file),
            Ok(true) => exists|i: int|
                first_entry_at(entries@, host@, username@, i) && final(file).entries@.len()
                    == old(file).entries@.len() && sealed_entry(key@, final(file).entries@[i], plaintext@)
                    && forall|j: int|
                    0 <= j < old(file).entries@.len() && j != i ==> final(file).entries@[j]
                        == old(file).entries@[j],
            Ok(false) => no_entry(entries@, host@, username@) && final(file).entries@.len()
                == old(file).entries@.len() + 1 && final(file).entries@.drop_last() == old(
                file,
            ).entries@ && sealed_entry(key@, final(file).entries@.last(), plaintext@),
        },
{
    let (nonce, ciphertext) = match vault_encrypt(key, plaintext) {
        Ok(p) => p,
        Err(e) => {
            return Err(e);
        },
    };
    let new_entry = EncryptedVaultEntry { nonce, ciphertext };
    match find_vault_entry_index(entries, host, username) {
        Some(i) => {
            file.entries.set(i, new_entry);
            assert(first_entry_at(entries@, host@, username@, i as int));
            Ok(true)
        },
        None => {
            file.entries.push(new_entry);
            assert(final(file).entries@.drop_last() =~= old(file).entries@);
            Ok(false)
        },
    }
}

/// Removes the saved login of `host` (ASCII case ignored) and `username`,
/// skipping entries that could not be read: `Login not found.` when there
/// is none.
pub fn vault_delete_login(file: &mut VaultFile, entries: &[EntryRead], host: &str, username: &str) -> (r: Result<(), String>)
    requires
        entries@.len() == old(file).entries@.len(),
    ensures
        same_header(*final(file), *old(file)),
        match r {
            Err(m) => no_entry(entries@, host@, username@) && m@ == "Login not found."@
                && *final(file) == *old(file),
            Ok(()) => exists|i: int|
                first_entry_at(entries@, host@, username@, i) && final(file).entries@ == old(
                    file,
                ).entries@.remove(i),
        },
{
    match find_vault_entry_index(entries, host, username) {
        None => Err("Login not found.".to_owned()),
        Some(i) => {
            file.entries.remove(i);
            assert(first_entry_at(entries@, host@, username@, i as int));
            Ok(())
        },
    }
}

/// The saved password of `host` (ASCII case ignored) and `username`,
/// skipping entries that could not be read: `Login not found.` when there
/// is none.
pub fn vault_reveal_login(entries: &[EntryRead], host: &str, username: &str) -> (r: Result<String, String>)
    ensures
        match r {
            Err(m) => no_entry(entries@, host@, username@) && m@ == "Login not found."@,
            Ok(pw) => exists|i: int|
                first_entry_at(entries@, host@, username@, i) && (entries@[i] matches EntryRead::Login(
                    p,
                ) && p.password@ == pw@),
        },
{
    match find_vault_entry_index(entries, host, username) {
        None => Err("Login not found.".to_owned()),
        Some(i) => {
            assert(first_entry_at(entries@, host@, username@, i as int));
            match &entries[i] {
                EntryRead::Login(p) => Ok(p.password.clone()),
                _ => Err("Login not found.".to_owned()),
            }
        },
    }
}

// ---------------------------------------------------------------------
// Reports from a page's login form
// ---------------------------------------------------------------------

/// A reported host as compared: trimmed and lower-cased.
pub open spec fn reported_host(host: Seq<char>) -> Seq<char> {
    lowercase(trim(host))
}

/// What to do with a submitted login form.
pub enum LoginSubmit {
    /// Nothing: the report does not hold up, or the login is already saved.
    Ignore,
    /// Hold the capture for the save prompt.
    Capture(PendingLoginCapture),
}

/// What to offer a page that shows a login form.
pub enum FormOffer {
    Ignore,
    /// Offer to fill one of the saved usernames.
    Offer { tab_label: String, host: String, usernames: Vec<String> },
}

/// A login form was submitted in the tab `label`. The reported host is
/// trusted only when it is the tab's own host (see `eligible_tab_host`);
/// an empty host or password is ignored, and so is a login already saved
/// when the vault can be read (`saved`, `None` while locked or absent);
/// vault entries that could not be read are skipped.
pub fn report_login_submit(
    tabs: &TabState,
    label: &str,
    host: &str,
    username: String,
    password: String,
    saved: Option<&[EntryRead]>,
) -> (r: LoginSubmit)
    ensures
        ({
            let h = reported_host(host@);
            if h.len() == 0 || password@.len() == 0 || eligible_host(tabs.tabs@, label@) != Some(h) {
                r is Ignore
            } else {
                match saved {
                    None => r matches LoginSubmit::Capture(c) && c@ == (h, username@, password@),
                    Some(es) => if exists|k: int|
                        0 <= k < es@.len() && entry_holds(#[trigger] es@[k], h, username@, password@) {
                        r is Ignore
                    } else {
                        r matches LoginSubmit::Capture(c) && c@ == (h, username@, password@)
                    },
                }
            }
        }),
{
    let trimmed = trim_str(host);
    let h = to_lowercase(trimmed.as_str());
    if h.as_str().is_empty() || password.as_str().is_empty() {
        return LoginSubmit::Ignore;
    }
    match tabs.eligible_tab_host(label) {
        Some(th) => {
            if !str_eq(th.as_str(), h.as_str()) {
                return LoginSubmit::Ignore;
            }
        },
        None => {
            return LoginSubmit::Ignore;
        },
    }
    match saved {
        Some(es) => {
            if login_already_saved(es, h.as_str(), username.as_str(), password.as_str()) {
                return LoginSubmit::Ignore;
            }
        },
        None => {},
    }
    LoginSubmit::Capture(PendingLoginCapture { host: h, username, password })
}

/// A page in the tab `label` shows a login form for `host`. When the
/// reported host is the tab's own host and the unlocked vault (`saved`,
/// `None` while locked or absent) holds logins for it, offer their
/// usernames; vault entries that could not be read are skipped.
pub fn report_login_form_present(tabs: &TabState, label: &str, host: &str, saved: Option<&[EntryRead]>) -> (r: FormOffer)
    ensures
        ({
            let h = reported_host(host@);
            if h.len() == 0 || eligible_host(tabs.tabs@, label@) != Some(h) {
                r is Ignore
            } else {
                match saved {
                    None => r is Ignore,
                    Some(es) => if usernames_for(es@, h) == Set::<Seq<char>>::empty() {
                        r is Ignore
                    } else {
                        r matches FormOffer::Offer { tab_label, host: oh, usernames } && tab_label@
                            == label@ && oh@ == h && strictly_sorted(
                            usernames@.map_values(|s: String| s@),
                        ) && usernames@.map_values(|s: String| s@).to_set() == usernames_for(es@, h)
                    },
                }
            }
        }),
{
    let trimmed = trim_str(host);
    let h = to_lowercase(trimmed.as_str());
    if h.as_str().is_empty() {
        return FormOffer::Ignore;
    }
    match tabs.eligible_tab_host(label) {
        Some(th) => {
            if !str_eq(th.as_str(), h.as_str()) {
                return FormOffer::Ignore;
            }
        },
        None => {
            return FormOffer::Ignore;
        },
    }
    let es = match saved {
        Some(es) => es,
        None => {
            return FormOffer::Ignore;
        },
    };
    let usernames = autofill_usernames(es, h.as_str());
    if usernames.len() == 0 {
        proof {
            assert(usernames@.map_values(|s: String| s@) =~= Seq::<Seq<char>>::empty());
            assert(usernames_for(es@, h@) =~= Set::<Seq<char>>::empty());
        }
        return FormOffer::Ignore;
    }
    proof {
        let m = usernames@.map_values(|s: String| s@);
        assert(m.to_set().contains(m[0]));
    }
    FormOffer::Offer { tab_label: label.to_owned(), host: h, usernames }
}

/// Script start of `build_autofill_script`, up to the username literal.
pub const AUTOFILL_SCRIPT_HEAD: &'static str = "(function() {\n  function setNativeValue(el, value) {\n    const setter = Object.getOwnPropertyDescriptor(window.HTMLInputElement.prototype, 'value').set;\n    setter.call(el, value);\n    el.dispatchEvent(new Event('input', { bubbles: true }));\n    el.dispatchEvent(new Event('change', { bubbles: true }));\n  }\n\n  const passwordField = document.querySelector('input[type=\"password\"]');\n  if (!passwordField) return;\n\n  const form = passwordField.closest('form') || document;\n  const candidates = Array.from(\n    form.querySelectorAll(\n      'input:not([type=hidden]):not([type=checkbox]):not([type=radio]):not([type=submit]):not([type=button])'\n    )\n  ).filter((el) => el !== passwordField && el.type !== 'password');\n  let usernameField = candidates.find((el) => el.autocomplete === 'username');\n  if (!usernameField) {\n    const before = candidates.filter(\n      (el) => el.compareDocumentPosition(passwordField) & Node.DOCUMENT_POSITION_FOLLOWING\n    );\n    usernameField = before.length ? before[before.length - 1] : candidates[0];\n  }\n\n  const username = ";

/// Script text between the username and password literals.
pub const AUTOFILL_SCRIPT_MID: &'static str = ";\n  const password = ";

/// Script end, after the password literal.
pub const AUTOFILL_SCRIPT_TAIL: &'static str = ";\n  if (usernameField && username) setNativeValue(usernameField, username);\n  setNativeValue(passwordField, password);\n})();";

/// The script that fills a page's login form the way typing would (native
/// value setter, then `input` and `change` events), with the username and
/// password embedded as JSON string literals.
pub fn build_autofill_script(username: &str, password: &str) -> (r: String)
    ensures
        r@ == AUTOFILL_SCRIPT_HEAD@ + json_quoted(username@) + AUTOFILL_SCRIPT_MID@ + json_quoted(
            password@,
        ) + AUTOFILL_SCRIPT_TAIL@,
{
    let uj = json_literal(username);
    let pj = json_literal(password);
    let mut s = String::new();
    push_str(&mut s, AUTOFILL_SCRIPT_HEAD);
    push_str(&mut s, uj.as_str());
    push_str(&mut s, AUTOFILL_SCRIPT_MID);
    push_str(&mut s, pj.as_str());
    push_str(&mut s, AUTOFILL_SCRIPT_TAIL);
    assert(s@ =~= AUTOFILL_SCRIPT_HEAD@ + json_quoted(username@) + AUTOFILL_SCRIPT_MID@ + json_quoted(
        password@,
    ) + AUTOFILL_SCRIPT_TAIL@);
    s
}

} // verus!
