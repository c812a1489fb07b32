use kite::logins::{
    autofill_usernames, build_autofill_script, store_login, vault_delete_login, vault_list_logins,
    vault_reveal_login, PendingLoginCapture, PendingLogins,
};
use kite::vault::{
    derive_vault_key, find_vault_entry_index, login_already_saved, open_entries,
    seal_new_vault, vault_create, vault_decrypt, vault_encrypt, vault_seal, verify_master_password, EntryRead, OpenedEntry, VaultEntryPlaintext,
    VaultFile, VaultRuntime,
};

fn login(host: &str, user: &str, pw: &str) -> EntryRead {
    EntryRead::Login(VaultEntryPlaintext {
        host: host.to_string(),
        username: user.to_string(),
        password: pw.to_string(),
    })
}

fn empty_file() -> VaultFile {
    VaultFile {
        kdf_salt: String::new(),
        verifier_nonce: String::new(),
        verifier_ciphertext: String::new(),
        entries: Vec::new(),
    }
}

#[test]
fn derive_vault_key_is_deterministic_and_checks_salt() {
    let salt = [7u8; 16];
    let a = derive_vault_key("correct horse", &salt).unwrap();
    let b = derive_vault_key("correct horse", &salt).unwrap();
    assert_eq!(a, b);
    let c = derive_vault_key("correct horsf", &salt).unwrap();
    assert_ne!(a, c);
    let short = derive_vault_key("pw", &[1u8; 4]);
    assert_eq!(short, Err("key derivation failed: salt is too short".to_string()));
}

#[test]
fn sealed_entries_open_to_their_plaintext() {
    let key = [3u8; 32];
    let (nonce, ct) = vault_encrypt(&key, b"secret data").unwrap();
    assert_eq!(vault_decrypt(&key, &nonce, &ct), Ok(b"secret data".to_vec()));
    let other = [4u8; 32];
    assert_eq!(vault_decrypt(&other, &nonce, &ct), Err("decryption failed".to_string()));
    let (nonce2, ct2) = vault_encrypt(&key, b"secret data").unwrap();
    assert!(nonce != nonce2 || ct != ct2);
    assert!(vault_decrypt(&key, "!!!", &ct).is_err());
}

#[test]
fn vault_create_checks_password_and_existing_vault() {
    assert_eq!(
        vault_create("short", false).err(),
        Some("Master password must be at least 8 characters.".to_string())
    );
    assert_eq!(vault_create("long enough", true).err(), Some("A vault already exists.".to_string()));
    // Eight bytes of UTF-8, but only four characters.
    assert_eq!(
        vault_create("\u{e9}\u{e9}\u{e9}\u{e9}", false).err(),
        Some("Master password must be at least 8 characters.".to_string())
    );
    assert_eq!(vault_create("\u{e9}\u{e9}\u{e9}\u{e9}\u{e9}\u{e9}\u{e9}\u{e9}", true).err(), Some("A vault already exists.".to_string()));
    assert!(vault_create("\u{e9}\u{e9}\u{e9}\u{e9}\u{e9}\u{e9}\u{e9}\u{e9}", false).is_ok());
}

#[test]
fn created_vault_unlocks_with_its_password_only() {
    let (file, key) = vault_create("master password", false).unwrap();
    assert!(file.entries.is_empty());
    let mut rt = VaultRuntime::new();
    assert!(!rt.is_unlocked());
    assert_eq!(rt.vault_unlock(Some(&file), "wrong password"), Err("Incorrect master password.".to_string()));
    assert!(!rt.is_unlocked());
    assert_eq!(rt.vault_unlock(Some(&file), "master password"), Ok(()));
    assert_eq!(rt.key, Some(key));
    rt.vault_lock();
    assert!(!rt.is_unlocked());
    assert_eq!(rt.vault_unlock(None, "master password"), Err("No vault found.".to_string()));
    assert_eq!(rt.key_or("Vault is locked."), Err("Vault is locked.".to_string()));
}

#[test]
fn malformed_verifier_nonce_is_a_wrong_password() {
    let (mut file, _) = vault_create("master password", false).unwrap();
    file.verifier_nonce = "AAAA".to_string(); // decodes to 3 bytes
    let mut rt = VaultRuntime::new();
    assert_eq!(rt.vault_unlock(Some(&file), "master password"), Err("Incorrect master password.".to_string()));
    assert!(!rt.is_unlocked());
    rt.unlock_with([1u8; 32]);
    assert_eq!(rt.vault_unlock(Some(&file), "master password"), Err("Incorrect master password.".to_string()));
    assert_eq!(rt.key, Some([1u8; 32]));
}

#[test]
fn short_nonce_gives_the_vague_error() {
    let key = [0u8; 32];
    assert_eq!(vault_decrypt(&key, "AAAA", "AAAA"), Err("decryption failed".to_string()));
}

#[test]
fn open_entries_flags_each_entry() {
    let key = [9u8; 32];
    let (n, c) = vault_encrypt(&key, b"{}").unwrap();
    let mut file = empty_file();
    file.entries.push(kite::vault::EncryptedVaultEntry { nonce: n.clone(), ciphertext: c });
    file.entries.push(kite::vault::EncryptedVaultEntry { nonce: n, ciphertext: "AAAA".to_string() });
    file.entries.push(kite::vault::EncryptedVaultEntry { nonce: "AAAA".to_string(), ciphertext: "AAAA".to_string() });
    let opened = open_entries(&file, &key);
    assert_eq!(opened.len(), 3);
    assert!(matches!(&opened[0], OpenedEntry::Plain(p) if p == b"{}"));
    assert!(matches!(opened[1], OpenedEntry::Unopened));
    assert!(matches!(opened[2], OpenedEntry::Unopened));
}

#[test]
fn find_entry_ignores_host_case_but_not_username_case() {
    let es = vec![login("a.com", "bob", "1"), EntryRead::Unreadable, login("B.com", "Ann", "2")];
    assert_eq!(find_vault_entry_index(&es, "b.COM", "Ann"), Some(2));
    assert_eq!(find_vault_entry_index(&es, "b.com", "ann"), None);
    let skipped = vec![EntryRead::Unreadable, login("a.com", "bob", "1")];
    assert_eq!(find_vault_entry_index(&skipped, "a.com", "bob"), Some(1));
}

#[test]
fn login_already_saved_needs_the_same_password() {
    let es = vec![login("a.com", "bob", "pw1")];
    assert!(login_already_saved(&es, "A.com", "bob", "pw1"));
    assert!(!login_already_saved(&es, "a.com", "bob", "pw2"));
    assert!(login_already_saved(&[EntryRead::Unreadable, login("a.com", "bob", "pw1")], "a.com", "bob", "pw1"));
}

#[test]
fn list_logins_sorted_by_host_then_username() {
    let es = vec![
        login("b.com", "zed", "1"),
        login("a.com", "mia", "2"),
        EntryRead::Unreadable,
        login("b.com", "amy", "3"),
    ];
    let list = vault_list_logins(&es);
    let pairs: Vec<(String, String)> = list.into_iter().map(|s| (s.host, s.username)).collect();
    assert_eq!(
        pairs,
        vec![
            ("a.com".to_string(), "mia".to_string()),
            ("b.com".to_string(), "amy".to_string()),
            ("b.com".to_string(), "zed".to_string()),
        ]
    );
    assert!(vault_list_logins(&[EntryRead::Unreadable]).is_empty());
}

#[test]
fn autofill_usernames_sorted_once_each() {
    let es = vec![
        login("site.com", "zoe", "1"),
        login("SITE.com", "al", "2"),
        login("site.com", "zoe", "3"),
        login("other.com", "bo", "4"),
    ];
    assert_eq!(autofill_usernames(&es, "site.com"), vec!["al".to_string(), "zoe".to_string()]);
    assert_eq!(autofill_usernames(&es, "none.com"), Vec::<String>::new());
}

#[test]
fn store_login_replaces_or_appends() {
    let key = [5u8; 32];
    let mut file = empty_file();
    let es: Vec<EntryRead> = vec![];
    assert_eq!(store_login(&mut file, &key, b"first", &es, "a.com", "bob"), Ok(false));
    assert_eq!(file.entries.len(), 1);
    let es = vec![login("A.COM", "bob", "old")];
    assert_eq!(store_login(&mut file, &key, b"second", &es, "a.com", "bob"), Ok(true));
    assert_eq!(file.entries.len(), 1);
    let e = &file.entries[0];
    assert_eq!(vault_decrypt(&key, &e.nonce, &e.ciphertext), Ok(b"second".to_vec()));
    let es = vec![EntryRead::Unreadable];
    assert_eq!(store_login(&mut file, &key, b"third", &es, "a.com", "bob"), Ok(false));
    assert_eq!(file.entries.len(), 2);
}

#[test]
fn delete_and_reveal_logins() {
    let key = [6u8; 32];
    let mut file = empty_file();
    store_login(&mut file, &key, b"x", &[], "a.com", "bob").unwrap();
    store_login(&mut file, &key, b"y", &[login("a.com", "bob", "p")], "c.com", "cy").unwrap();
    let es = vec![login("a.com", "bob", "p"), login("c.com", "cy", "q")];
    assert_eq!(vault_reveal_login(&es, "C.com", "cy"), Ok("q".to_string()));
    assert_eq!(vault_reveal_login(&es, "c.com", "zz"), Err("Login not found.".to_string()));
    assert_eq!(vault_delete_login(&mut file, &es, "a.com", "bob"), Ok(()));
    assert_eq!(file.entries.len(), 1);
    let es = vec![login("c.com", "cy", "q")];
    assert_eq!(vault_delete_login(&mut file, &es, "a.com", "bob"), Err("Login not found.".to_string()));
}

#[test]
fn pending_logins_keep_the_latest_capture_per_tab() {
    let mut p = PendingLogins::new();
    let cap = |u: &str| PendingLoginCapture { host: "a.com".into(), username: u.into(), password: "pw".into() };
    p.insert("content-1".to_string(), cap("first"));
    p.insert("content-2".to_string(), cap("other"));
    p.insert("content-1".to_string(), cap("second"));
    let got = p.take("content-1").unwrap();
    assert_eq!(got.username, "second");
    assert!(p.take("content-1").is_none());
    assert_eq!(p.take("content-2").unwrap().username, "other");
}

#[test]
fn autofill_script_embeds_json_literals() {
    let s = build_autofill_script("bob", "p\"w");
    assert!(s.starts_with("(function() {\n"));
    assert!(s.contains("  const username = \"bob\";\n  const password = \"p\\\"w\";\n"));
    assert!(s.ends_with("setNativeValue(passwordField, password);\n})();"));
}

#[test]
fn lock_state_follows_the_calls() {
    let (file, key) = vault_create("master password", false).unwrap();
    let mut rt = VaultRuntime::new();
    assert!(rt.vault_unlock(Some(&file), "master password").is_ok());
    assert!(rt.vault_unlock(Some(&file), "wrong password").is_err());
    assert_eq!(rt.key, Some(key));
    rt.vault_lock();
    assert_eq!(rt.key, None);
    assert!(rt.vault_unlock(Some(&file), "wrong password").is_err());
    assert_eq!(rt.key, None);
    assert!(rt.vault_unlock(Some(&file), "master password").is_ok());
    assert_eq!(rt.key, Some(key));
}

#[test]
fn corrupt_entries_are_skipped() {
    let key = [8u8; 32];
    let mut file = empty_file();
    file.entries.push(kite::vault::EncryptedVaultEntry { nonce: "AAAA".to_string(), ciphertext: "AAAA".to_string() });
    let es = vec![EntryRead::Unreadable, login("a.com", "bob", "pw")];
    let es_file: Vec<EntryRead> = vec![EntryRead::Unreadable];
    assert!(matches!(open_entries(&file, &key)[0], OpenedEntry::Unopened));
    assert_eq!(vault_list_logins(&es).len(), 1);
    assert_eq!(autofill_usernames(&es, "a.com"), vec!["bob".to_string()]);
    assert_eq!(vault_reveal_login(&es, "a.com", "bob"), Ok("pw".to_string()));
    assert_eq!(store_login(&mut file, &key, b"new", &es_file, "a.com", "bob"), Ok(false));
    assert_eq!(file.entries.len(), 2);
}

#[test]
fn sealing_with_a_given_nonce_is_exact() {
    let key = [2u8; 32];
    let nonce = [0u8; 12];
    let (n, c) = vault_seal(&key, b"abc", &nonce).unwrap();
    assert_eq!(n, "AAAAAAAAAAAAAAAA");
    assert_eq!(vault_seal(&key, b"abc", &nonce), Ok((n.clone(), c.clone())));
    assert_eq!(vault_decrypt(&key, &n, &c), Ok(b"abc".to_vec()));
}

#[test]
fn new_vault_from_given_salt_and_nonce_unlocks() {
    let (file, key) = seal_new_vault("any password", &[1u8; 16], &[2u8; 12]).unwrap();
    assert!(file.entries.is_empty());
    assert_eq!(file.kdf_salt, "AQEBAQEBAQEBAQEBAQEBAQ==");
    assert_eq!(verify_master_password(&file, "any password"), Ok(key));
    assert_eq!(verify_master_password(&file, "other"), Err("Incorrect master password.".to_string()));
}

#[test]
fn decoder_errors_are_passed_on() {
    let key = [0u8; 32];
    assert_eq!(vault_decrypt(&key, "A", "AAAA"), Err("Invalid input length: 1".to_string()));
    let mut file = empty_file();
    file.kdf_salt = "!!!!".to_string();
    let mut rt = VaultRuntime::new();
    assert_eq!(rt.vault_unlock(Some(&file), "pw"), Err("Invalid symbol 33, offset 0.".to_string()));
}

#[test]
fn encoding_fits_below_the_machine_limit() {
    assert!(kite::vault::fits_encoding(0));
    assert!(kite::vault::fits_encoding(1 << 20));
    assert!(!kite::vault::fits_encoding(usize::MAX));
}
