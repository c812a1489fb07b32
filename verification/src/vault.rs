//! The password vault: an Argon2id key from the master password, AES-256-GCM
//! sealed entries stored as base64 text, and the decisions around creating,
//! unlocking, locking, saving, listing and filling logins.
use vstd::prelude::*;
use aes_gcm::aead::{Aead, KeyInit};
use rand::RngCore;
use crate::encoding::{b64_decode, b64_decoded, b64_encode, base64_decode, base64_encode};
use crate::text::{chars_of, eq_ignore_ascii_case, has_prefix, push_str, str_eq, str_eq_ignore_ascii_case};

verus! {

/// Bytes of the random salt fed to Argon2id with the master password.
pub const VAULT_SALT_LEN: usize = 16;

/// Bytes of a vault key (AES-256).
pub const VAULT_KEY_LEN: usize = 32;

/// Bytes of an AES-GCM nonce.
pub const VAULT_NONCE_LEN: usize = 12;

/// Shortest master password accepted, in characters.
pub const MIN_MASTER_PASSWORD_LEN: usize = 8;

/// Longest plaintext AES-GCM seals, in bytes (2^36).
pub const AES_GCM_MAX_PLAINTEXT: u64 = 68_719_476_736;

/// Longest password Argon2 takes, and longest salt, in bytes.
pub const ARGON2_MAX_INPUT: u64 = 0xFFFF_FFFF;

/// Shortest salt Argon2 takes, in bytes.
pub const ARGON2_MIN_SALT: u64 = 8;

#[verifier::external_type_specification]
#[verifier::external_body]
pub struct ExAeadError(aes_gcm::Error);

#[verifier::external_type_specification]
#[verifier::external_body]
pub struct ExRandError(rand::Error);

/// The 32-byte key `argon2::Argon2::default()` (Argon2id, version 0x13,
/// default cost parameters) derives from a password and a salt.
pub uninterp spec fn argon2id_key(password: Seq<u8>, salt: Seq<u8>) -> Seq<u8>;

/// What `aes_gcm::Aes256Gcm` encrypts a plaintext to under a key and a
/// 12-byte nonce, with no associated data: the ciphertext followed by the tag.
pub uninterp spec fn aes256gcm_seal(key: Seq<u8>, nonce: Seq<u8>, plaintext: Seq<u8>) -> Seq<u8>;

/// What `aes_gcm::Aes256Gcm` decrypts a ciphertext to under a key and a
/// 12-byte nonce, with no associated data; `None` when the tag does not
/// authenticate it.
pub uninterp spec fn aes256gcm_open(key: Seq<u8>, nonce: Seq<u8>, ciphertext: Seq<u8>) -> Option<Seq<u8>>;

/// Why Argon2 refuses a password and salt of these lengths (in bytes), as
/// `argon2::Error`'s display text: the password is checked first, then the
/// salt's lower and upper bounds.
pub open spec fn argon2_input_error(password_len: nat, salt_len: nat) -> Seq<char> {
    if password_len > ARGON2_MAX_INPUT {
        "password is too long"@
    } else if salt_len < ARGON2_MIN_SALT {
        "salt is too short"@
    } else {
        "salt is too long"@
    }
}

/// `argon2::Argon2::default().hash_password_into` with a 32-byte output,
/// its error turned into its display text. Per the crate's source it fails
/// exactly when the password is longer than `0xFFFF_FFFF` bytes or the salt
/// is shorter than 8 or longer than `0xFFFF_FFFF` bytes, with the error of
/// the first check that fails; otherwise the output is the derived key.
#[verifier::external_body]
fn argon2_hash(password: &[u8], salt: &[u8]) -> (r: Result<[u8; 32], String>)
    ensures
        r is Ok <==> (password@.len() <= ARGON2_MAX_INPUT && ARGON2_MIN_SALT <= salt@.len()
            <= ARGON2_MAX_INPUT),
        r matches Ok(k) ==> k@ == argon2id_key(password@, salt@),
        r matches Err(m) ==> m@ == argon2_input_error(password@.len(), salt@.len()),
{
    let mut key = [0u8; 32];
    match argon2::Argon2::default().hash_password_into(password, salt, &mut key) {
        Ok(()) => Ok(key),
        Err(e) => Err(e.to_string()),
    }
}

/// `aes_gcm::Aes256Gcm::encrypt` with no associated data, its error turned
/// into its display text (`aead::Error`). Per the crate's source it fails
/// exactly when the plaintext is longer than 2^36 bytes; otherwise it
/// returns the ciphertext with a 16-byte tag appended, which `decrypt`
/// under the same key and nonce opens back to the plaintext. A nonce that
/// is not 12 bytes long makes the crate panic.
#[verifier::external_body]
fn aes256gcm_encrypt(key: &[u8; 32], nonce: &[u8], plaintext: &[u8]) -> (r: Result<Vec<u8>, String>)
    requires
        nonce@.len() == VAULT_NONCE_LEN,
    ensures
        r is Ok <==> plaintext@.len() <= AES_GCM_MAX_PLAINTEXT,
        r matches Ok(c) ==> c@ == aes256gcm_seal(key@, nonce@, plaintext@) && c@.len()
            == plaintext@.len() + 16 && aes256gcm_open(key@, nonce@, c@) == Some(plaintext@),
        r matches Err(m) ==> m@ == "aead::Error"@,
{
    let cipher = aes_gcm::Aes256Gcm::new(aes_gcm::Key::<aes_gcm::Aes256Gcm>::from_slice(key));
    match cipher.encrypt(aes_gcm::Nonce::from_slice(nonce), plaintext) {
        Ok(c) => Ok(c),
        Err(e) => Err(e.to_string()),
    }
}

/// `aes_gcm::Aes256Gcm::decrypt` with no associated data: the plaintext when
/// the tag authenticates the ciphertext, an error otherwise. A nonce that is
/// not 12 bytes long makes the crate panic.
#[verifier::external_body]
fn aes256gcm_decrypt(key: &[u8; 32], nonce: &[u8], ciphertext: &[u8]) -> (r: Result<Vec<u8>, aes_gcm::Error>)
    requires
        nonce@.len() == VAULT_NONCE_LEN,
    ensures
        match r {
            Ok(p) => aes256gcm_open(key@, nonce@, ciphertext@) == Some(p@),
            Err(_) => aes256gcm_open(key@, nonce@, ciphertext@) is None,
        },
{
    let cipher = aes_gcm::Aes256Gcm::new(aes_gcm::Key::<aes_gcm::Aes256Gcm>::from_slice(key));
    cipher.decrypt(aes_gcm::Nonce::from_slice(nonce), ciphertext)
}

/// `n` bytes from `rand::rngs::OsRng::try_fill_bytes`, or the error it
/// returns when the operating system's generator fails. Nothing is stated
/// of the bytes' values, nor of when the generator fails.
#[verifier::external_body]
fn random_bytes(n: usize) -> (r: Result<Vec<u8>, rand::Error>)
    ensures
        r matches Ok(v) ==> v@.len() == n,
{
    let mut v = vec![0u8; n];
    match rand::rngs::OsRng.try_fill_bytes(&mut v) {
        Ok(()) => Ok(v),
        Err(e) => Err(e),
    }
}

/// The message for a failed random draw: a fixed prefix and the
/// generator's own error text.
fn random_failure(e: rand::Error) -> (m: String)
    ensures
        has_prefix(m@, "random number generator failed: "@),
{
    let mut m = String::new();
    push_str(&mut m, "random number generator failed: ");
    let detail = e.to_string();
    push_str(&mut m, detail.as_str());
    assert(m@.take("random number generator failed: "@.len() as int) =~= "random number generator failed: "@);
    m
}

/// `zeroize::Zeroize::zeroize` on a key: every byte becomes 0.
#[verifier::external_body]
fn zeroize_key(key: &mut [u8; 32])
    ensures
        final(key)@ == Seq::new(32, |_i: int| 0u8),
{
    zeroize::Zeroize::zeroize(key)
}

// ---------------------------------------------------------------------
// Specifications
// ---------------------------------------------------------------------

/// Argon2 accepts the password (as UTF-8) and the salt.
pub open spec fn key_derivable(password: Seq<char>, salt: Seq<u8>) -> bool {
    vstd::utf8::encode_utf8(password).len() <= ARGON2_MAX_INPUT && ARGON2_MIN_SALT <= salt.len()
        <= ARGON2_MAX_INPUT
}

/// The vault key for a password (as UTF-8) and a salt.
pub open spec fn vault_key_for(password: Seq<char>, salt: Seq<u8>) -> Seq<u8> {
    argon2id_key(vstd::utf8::encode_utf8(password), salt)
}

/// What a stored (nonce, ciphertext) pair opens to under a key: `None` when
/// either text does not decode, the nonce is not 12 bytes (a corrupt file),
/// or the tag does not authenticate.
pub open spec fn vault_opened(key: Seq<u8>, nonce_b64: Seq<char>, ciphertext_b64: Seq<char>) -> Option<Seq<u8>> {
    match (b64_decode(nonce_b64), b64_decode(ciphertext_b64)) {
        (Some(n), Some(c)) => if n.len() == VAULT_NONCE_LEN {
            aes256gcm_open(key, n, c)
        } else {
            None
        },
        _ => None,
    }
}

/// The pair holds a 12-byte nonce and what AES-256-GCM sealed `plaintext`
/// to under `key` and that nonce.
pub open spec fn sealed_from(key: Seq<u8>, nonce_b64: Seq<char>, ciphertext_b64: Seq<char>, plaintext: Seq<u8>) -> bool {
    exists|n: Seq<u8>|
        n.len() == VAULT_NONCE_LEN && b64_decode(nonce_b64) == Some(n) && b64_decode(ciphertext_b64)
            == Some(#[trigger] aes256gcm_seal(key, n, plaintext))
}

/// The base64 text of a buffer of `n` bytes fits in memory.
pub open spec fn encodable_len(n: nat) -> bool {
    n / 3 * 4 + 4 <= usize::MAX
}

/// Whether the base64 text of a buffer of `n` bytes fits in memory.
pub fn fits_encoding(n: usize) -> (r: bool)
    ensures
        r == encodable_len(n as nat),
{
    let q = n / 3;
    let r = q <= (usize::MAX - 4) / 4;
    proof {
        let m = usize::MAX as int;
        assert(r ==> q * 4 + 4 <= m) by (nonlinear_arith)
            requires
                r == (q <= (m - 4) / 4),
                m >= 4,
        ;
        assert(q * 4 + 4 <= m ==> r) by (nonlinear_arith)
            requires
                r == (q <= (m - 4) / 4),
                m >= 4,
                q >= 0,
        ;
    }
    r
}

// ---------------------------------------------------------------------
// Keys and sealing
// ---------------------------------------------------------------------

/// What deriving the key for a password and a salt gives: the key, or the
/// error naming what Argon2 refused.
pub open spec fn derived_key(password: Seq<char>, salt: Seq<u8>) -> Result<Seq<u8>, Seq<char>> {
    if key_derivable(password, salt) {
        Ok(vault_key_for(password, salt))
    } else {
        Err(
            "key derivation failed: "@ + argon2_input_error(
                vstd::utf8::encode_utf8(password).len(),
                salt.len(),
            ),
        )
    }
}

/// Turns the master password and the vault's salt into the 256-bit key.
pub fn derive_vault_key(password: &str, salt: &[u8]) -> (r: Result<[u8; 32], String>)
    ensures
        match r {
            Ok(k) => derived_key(password@, salt@) == Ok::<Seq<u8>, Seq<char>>(k@),
            Err(m) => derived_key(password@, salt@) == Err::<Seq<u8>, Seq<char>>(m@),
        },
{
    let bytes = password.as_bytes();
    assert(bytes@ == vstd::utf8::encode_utf8(password@));
    match argon2_hash(bytes, salt) {
        Ok(k) => Ok(k),
        Err(detail) => {
            let mut m = String::new();
            push_str(&mut m, "key derivation failed: ");
            push_str(&mut m, detail.as_str());
            proof {
                reveal_strlit("key derivation failed: ");
            }
            Err(m)
        },
    }
}

/// The error for a plaintext AES-GCM will not seal (over 2^36 bytes).
pub open spec fn too_long_to_seal() -> Seq<char> {
    "encryption failed: aead::Error"@
}

/// Seals `plaintext` under `key` with the given 12-byte `nonce`; returns the
/// nonce and the ciphertext as base64 text. A plaintext over 2^36 bytes is
/// refused with `encryption failed: aead::Error`.
pub fn vault_seal(key: &[u8; 32], plaintext: &[u8], nonce: &[u8]) -> (r: Result<(String, String), String>)
    requires
        nonce@.len() == VAULT_NONCE_LEN,
        encodable_len(plaintext@.len() + 16),
    ensures
        r is Ok <==> plaintext@.len() <= AES_GCM_MAX_PLAINTEXT,
        match r {
            Ok((n, c)) => n@ == b64_encode(nonce@) && c@ == b64_encode(aes256gcm_seal(key@, nonce@, plaintext@))
                && sealed_from(key@, n@, c@, plaintext@) && vault_opened(key@, n@, c@) == Some(plaintext@),
            Err(m) => m@ == too_long_to_seal(),
        },
{
    match aes256gcm_encrypt(key, nonce, plaintext) {
        Ok(c) => {
            let n64 = base64_encode(nonce);
            let c64 = base64_encode(c.as_slice());
            assert(aes256gcm_seal(key@, nonce@, plaintext@) == c@);
            Ok((n64, c64))
        },
        Err(detail) => {
            let mut m = String::new();
            push_str(&mut m, "encryption failed: ");
            push_str(&mut m, detail.as_str());
            proof {
                reveal_strlit("encryption failed: ");
                reveal_strlit("encryption failed: aead::Error");
                reveal_strlit("aead::Error");
            }
            Err(m)
        },
    }
}

/// Seals `plaintext` under `key` with a fresh random nonce (see
/// `vault_seal`); the operating system's generator failing gives an error
/// starting `random number generator failed: `.
pub fn vault_encrypt(key: &[u8; 32], plaintext: &[u8]) -> (r: Result<(String, String), String>)
    requires
        encodable_len(plaintext@.len() + 16),
    ensures
        match r {
            Ok((n, c)) => plaintext@.len() <= AES_GCM_MAX_PLAINTEXT && sealed_from(
                key@,
                n@,
                c@,
                plaintext@,
            ) && vault_opened(key@, n@, c@) == Some(plaintext@),
            Err(m) => has_prefix(m@, "random number generator failed: "@) || (plaintext@.len()
                > AES_GCM_MAX_PLAINTEXT && m@ == too_long_to_seal()),
        },
        plaintext@.len() > AES_GCM_MAX_PLAINTEXT ==> r is Err,
{
    let nonce = match random_bytes(VAULT_NONCE_LEN) {
        Ok(n) => n,
        Err(e) => {
            return Err(random_failure(e));
        },
    };
    vault_seal(key, plaintext, nonce.as_slice())
}

/// What opening a stored (nonce, ciphertext) pair under a key gives: the
/// plaintext, a text's decoder error, or `decryption failed`.
pub open spec fn decrypted(key: Seq<u8>, nonce_b64: Seq<char>, ciphertext_b64: Seq<char>) -> Result<Seq<u8>, Seq<char>> {
    match (b64_decoded(nonce_b64), b64_decoded(ciphertext_b64)) {
        (Err(m), _) => Err(m),
        (Ok(_), Err(m)) => Err(m),
        (Ok(_), Ok(_)) => match vault_opened(key, nonce_b64, ciphertext_b64) {
            Some(p) => Ok(p),
            None => Err("decryption failed"@),
        },
    }
}

/// Opens a stored (nonce, ciphertext) pair under `key`. Text that does not
/// decode fails with the decoder's message; a pair the key does not open
/// (a wrong key, tampered data, or a nonce that is not 12 bytes) fails with
/// the same vague `decryption failed`.
pub fn vault_decrypt(key: &[u8; 32], nonce_b64: &str, ciphertext_b64: &str) -> (r: Result<Vec<u8>, String>)
    ensures
        match r {
            Ok(p) => decrypted(key@, nonce_b64@, ciphertext_b64@) == Ok::<Seq<u8>, Seq<char>>(p@),
            Err(m) => decrypted(key@, nonce_b64@, ciphertext_b64@) == Err::<Seq<u8>, Seq<char>>(m@),
        },
        r is Ok <==> vault_opened(key@, nonce_b64@, ciphertext_b64@) is Some,
        r matches Ok(p) ==> vault_opened(key@, nonce_b64@, ciphertext_b64@) == Some(p@),
{
    let nonce = match base64_decode(nonce_b64) {
        Ok(n) => n,
        Err(e) => {
            return Err(e);
        },
    };
    let ciphertext = match base64_decode(ciphertext_b64) {
        Ok(c) => c,
        Err(e) => {
            return Err(e);
        },
    };
    if nonce.len() != VAULT_NONCE_LEN {
        return Err("decryption failed".to_owned());
    }
    match aes256gcm_decrypt(key, nonce.as_slice(), ciphertext.as_slice()) {
        Ok(p) => Ok(p),
        Err(_) => Err("decryption failed".to_owned()),
    }
}

// ---------------------------------------------------------------------
// The vault file and its lock state
// ---------------------------------------------------------------------

/// What the verifier seals: opening it proves the key right.
pub const VAULT_VERIFIER_PLAINTEXT: &'static str = "kite-vault-v1";

/// One saved login, sealed: base64 nonce and ciphertext.
pub struct EncryptedVaultEntry {
    pub nonce: String,
    pub ciphertext: String,
}

/// The vault as stored on disk.
pub struct VaultFile {
    /// Base64 salt, random per vault.
    pub kdf_salt: String,
    /// Base64 nonce and ciphertext of `VAULT_VERIFIER_PLAINTEXT`.
    pub verifier_nonce: String,
    pub verifier_ciphertext: String,
    pub entries: Vec<EncryptedVaultEntry>,
}

/// The in-memory lock state: the key while unlocked.
pub struct VaultRuntime {
    pub key: Option<[u8; 32]>,
}

/// What checking a master password against the vault file gives: the key
/// it derives when that key opens the verifier; otherwise the salt
/// decoder's error, Argon2's refusal, or `Incorrect master password.`.
pub open spec fn unlock_result(file: VaultFile, password: Seq<char>) -> Result<Seq<u8>, Seq<char>> {
    match b64_decoded(file.kdf_salt@) {
        Err(m) => Err(m),
        Ok(salt) => match derived_key(password, salt) {
            Err(m) => Err(m),
            Ok(k) => if vault_opened(k, file.verifier_nonce@, file.verifier_ciphertext@) is Some {
                Ok(k)
            } else {
                Err("Incorrect master password."@)
            },
        },
    }
}

/// The key a master password unlocks the vault file with, if any.
pub open spec fn unlock_key(file: VaultFile, password: Seq<char>) -> Option<Seq<u8>> {
    match unlock_result(file, password) {
        Ok(k) => Some(k),
        Err(_) => None,
    }
}

/// The key held after one call on the lock state for the vault `file`: an
/// unlock attempt with a master password (`Some`) or a lock (`None`). A
/// failed unlock leaves the state as it was.
pub open spec fn key_after_call(key: Option<Seq<u8>>, file: VaultFile, call: Option<Seq<char>>) -> Option<Seq<u8>> {
    match call {
        None => None,
        Some(pw) => match unlock_key(file, pw) {
            Some(k) => Some(k),
            None => key,
        },
    }
}

/// The call, made on the vault file it names, is an unlock (or the
/// creation of that file) with a password that succeeds.
pub open spec fn unlocks(call: (VaultFile, Option<Seq<char>>)) -> bool {
    call.1 matches Some(pw) && unlock_key(call.0, pw) is Some
}

/// The key held after a run of calls, in order, each made on the vault
/// file it names: an unlock attempt, or creating that file, with a password
/// (`Some`), or a lock (`None`).
pub open spec fn key_after_calls(key: Option<Seq<u8>>, calls: Seq<(VaultFile, Option<Seq<char>>)>) -> Option<Seq<u8>>
    decreases calls.len(),
{
    if calls.len() == 0 {
        key
    } else {
        key_after_call(key_after_calls(key, calls.drop_last()), calls.last().0, calls.last().1)
    }
}

/// The key a lock state holds, as bytes.
pub open spec fn held_key(rt: VaultRuntime) -> Option<Seq<u8>> {
    match rt.key {
        Some(k) => Some(k@),
        None => None,
    }
}

/// Checks a candidate master password against the vault's verifier and
/// returns the key it derives. A salt that does not decode fails with the
/// decoder's message, a password Argon2 refuses with its reason, and a key
/// that does not open the verifier (including a corrupt verifier) with
/// `Incorrect master password.`.
pub fn verify_master_password(file: &VaultFile, master_password: &str) -> (r: Result<[u8; 32], String>)
    ensures
        match r {
            Ok(k) => unlock_result(*file, master_password@) == Ok::<Seq<u8>, Seq<char>>(k@),
            Err(m) => unlock_result(*file, master_password@) == Err::<Seq<u8>, Seq<char>>(m@),
        },
{
    let salt = match base64_decode(file.kdf_salt.as_str()) {
        Ok(s) => s,
        Err(e) => {
            return Err(e);
        },
    };
    let key = match derive_vault_key(master_password, salt.as_slice()) {
        Ok(k) => k,
        Err(e) => {
            return Err(e);
        },
    };
    match vault_decrypt(&key, file.verifier_nonce.as_str(), file.verifier_ciphertext.as_str()) {
        Ok(_) => Ok(key),
        Err(_) => Err("Incorrect master password.".to_owned()),
    }
}

/// Seals a new, empty vault for a master password with the given 16-byte
/// salt and 12-byte verifier nonce: the derived key, and the verifier
/// sealed under it. Fails only when Argon2 refuses the password (over
/// `0xFFFF_FFFF` bytes).
pub fn seal_new_vault(master_password: &str, salt: &[u8], nonce: &[u8]) -> (r: Result<(VaultFile, [u8; 32]), String>)
    requires
        salt@.len() == VAULT_SALT_LEN,
        nonce@.len() == VAULT_NONCE_LEN,
    ensures
        r is Ok <==> vstd::utf8::encode_utf8(master_password@).len() <= ARGON2_MAX_INPUT,
        match r {
            Ok((f, k)) => {
                &&& f.entries@.len() == 0
                &&& k@ == vault_key_for(master_password@, salt@)
                &&& unlock_result(f, master_password@) == Ok::<Seq<u8>, Seq<char>>(k@)
                &&& b64_decode(f.kdf_salt@) == Some(salt@)
                &&& f.verifier_nonce@ == b64_encode(nonce@)
            },
            Err(m) => m@ == "key derivation failed: "@ + "password is too long"@,
        },
{
    let key = match derive_vault_key(master_password, salt) {
        Ok(k) => k,
        Err(e) => {
            return Err(e);
        },
    };
    let verifier = VAULT_VERIFIER_PLAINTEXT.as_bytes();
    proof {
        reveal_strlit("kite-vault-v1");
        assert(vstd::utf8::is_ascii_chars(VAULT_VERIFIER_PLAINTEXT@));
        vstd::utf8::is_ascii_chars_encode_utf8(VAULT_VERIFIER_PLAINTEXT@);
    }
    let (verifier_nonce, verifier_ciphertext) = match vault_seal(&key, verifier, nonce) {
        Ok(p) => p,
        Err(e) => {
            return Err(e);
        },
    };
    let kdf_salt = base64_encode(salt);
    let file = VaultFile { kdf_salt, verifier_nonce, verifier_ciphertext, entries: Vec::new() };
    assert(b64_decoded(file.kdf_salt@) == Ok::<Seq<u8>, Seq<char>>(salt@));
    Ok((file, key))
}

/// Creates a new vault for a master password: a random salt, the derived
/// key, and the verifier sealed under a random nonce (see
/// `seal_new_vault`). Returns the file to write and the key to hold once it
/// is written. A master password under 8 characters, or an existing vault,
/// is refused; so is a password Argon2 refuses, and the operating system's
/// generator failing gives an error starting
/// `random number generator failed: `.
pub fn vault_create(master_password: &str, vault_exists: bool) -> (r: Result<(VaultFile, [u8; 32]), String>)
    ensures
        match r {
            Ok((f, k)) => {
                &&& master_password@.len() >= MIN_MASTER_PASSWORD_LEN
                &&& !vault_exists
                &&& vstd::utf8::encode_utf8(master_password@).len() <= ARGON2_MAX_INPUT
                &&& f.entries@.len() == 0
                &&& unlock_key(f, master_password@) == Some(k@)
                &&& forall|key: Option<Seq<u8>>| key_after_call(key, f, Some(master_password@)) == Some(k@)
                &&& b64_decode(f.kdf_salt@) matches Some(salt) && salt.len() == VAULT_SALT_LEN
            },
            Err(m) => if master_password@.len() < MIN_MASTER_PASSWORD_LEN {
                m@ == "Master password must be at least 8 characters."@
            } else if vault_exists {
                m@ == "A vault already exists."@
            } else {
                has_prefix(m@, "random number generator failed: "@) || (vstd::utf8::encode_utf8(
                    master_password@,
                ).len() > ARGON2_MAX_INPUT && m@ == "key derivation failed: "@ + "password is too long"@)
            },
        },
{
    if chars_of(master_password).len() < MIN_MASTER_PASSWORD_LEN {
        return Err("Master password must be at least 8 characters.".to_owned());
    }
    if vault_exists {
        return Err("A vault already exists.".to_owned());
    }
    let salt = match random_bytes(VAULT_SALT_LEN) {
        Ok(v) => v,
        Err(e) => {
            return Err(random_failure(e));
        },
    };
    let nonce = match random_bytes(VAULT_NONCE_LEN) {
        Ok(v) => v,
        Err(e) => {
            return Err(random_failure(e));
        },
    };
    seal_new_vault(master_password, salt.as_slice(), nonce.as_slice())
}

impl VaultRuntime {
    /// A locked vault.
    pub fn new() -> (s: Self)
        ensures
            s.key is None,
    {
        VaultRuntime { key: None }
    }

    /// Whether the vault is unlocked.
    pub fn is_unlocked(&self) -> (r: bool)
        ensures
            r == self.key is Some,
    {
        self.key.is_some()
    }

    /// Holds `key` as the unlocked vault's key.
    pub fn unlock_with(&mut self, key: [u8; 32])
        ensures
            final(self).key == Some(key),
    {
        self.key = Some(key);
    }

    /// The key, or `locked_message` as the error while locked.
    pub fn key_or(&self, locked_message: &str) -> (r: Result<[u8; 32], String>)
        ensures
            match self.key {
                Some(k) => r == Ok::<[u8; 32], String>(k),
                None => r matches Err(m) && m@ == locked_message@,
            },
    {
        match self.key {
            Some(k) => Ok(k),
            None => Err(locked_message.to_owned()),
        }
    }

    /// Unlocks with a master password against the stored vault file (`None`
    /// when there is none): `No vault found.`, or the error of
    /// `verify_master_password`, leaves the state unchanged.
    pub fn vault_unlock(&mut self, file: Option<&VaultFile>, master_password: &str) -> (r: Result<(), String>)
        ensures
            match file {
                None => (r matches Err(m) && m@ == "No vault found."@) && *final(self) == *old(self),
                Some(f) => match unlock_result(*f, master_password@) {
                    Ok(k) => r == Ok::<(), String>(()) && (final(self).key matches Some(kk) && kk@ == k),
                    Err(e) => (r matches Err(m) && m@ == e) && *final(self) == *old(self),
                },
            },
            file matches Some(f) ==> held_key(*final(self)) == key_after_call(
                held_key(*old(self)),
                *f,
                Some(master_password@),
            ),
    {
        match file {
            None => Err("No vault found.".to_owned()),
            Some(f) => match verify_master_password(f, master_password) {
                Ok(k) => {
                    self.key = Some(k);
                    Ok(())
                },
                Err(e) => Err(e),
            },
        }
    }

    /// Locks the vault: the key is dropped and its copy zeroed.
    pub fn vault_lock(&mut self)
        ensures
            final(self).key is None,
            forall|f: VaultFile| held_key(*final(self)) == key_after_call(held_key(*old(self)), f, None),
    {
        let taken = self.key.take();
        match taken {
            Some(k) => {
                let mut k = k;
                zeroize_key(&mut k);
            },
            None => {},
        }
    }
}

// ---------------------------------------------------------------------
// Saved logins
// ---------------------------------------------------------------------

/// What an entry's ciphertext holds once opened (its JSON form is
/// `{"host":..,"username":..,"password":..}`).
pub struct VaultEntryPlaintext {
    pub host: String,
    pub username: String,
    pub password: String,
}

/// A login as the Passwords list shows it: never the password.
pub struct VaultLoginSummary {
    pub host: String,
    pub username: String,
}

/// A stored entry after trying to open it under the key.
pub enum OpenedEntry {
    /// The plaintext bytes.
    Plain(Vec<u8>),
    /// The texts do not decode, the nonce is not 12 bytes, or the key does
    /// not authenticate them.
    Unopened,
}

/// A stored entry as the login logic reads it.
pub enum EntryRead {
    /// The entry opened and its plaintext parsed.
    Login(VaultEntryPlaintext),
    /// The entry did not open (a wrong key or a corrupt entry), or its
    /// plaintext did not parse.
    Unreadable,
}

/// The entry holds a login for `host` (ASCII case ignored) and `username`.
pub open spec fn entry_is(e: EntryRead, host: Seq<char>, username: Seq<char>) -> bool {
    e matches EntryRead::Login(p) && eq_ignore_ascii_case(p.host@, host) && p.username@ == username
}

/// The entry holds exactly this login (host's ASCII case ignored).
pub open spec fn entry_holds(e: EntryRead, host: Seq<char>, username: Seq<char>, password: Seq<char>) -> bool {
    e matches EntryRead::Login(p) && eq_ignore_ascii_case(p.host@, host) && p.username@ == username
        && p.password@ == password
}

/// The (host, username) of each readable login, in order.
pub open spec fn login_pairs(es: Seq<EntryRead>) -> Seq<(Seq<char>, Seq<char>)>
    decreases es.len(),
{
    if es.len() == 0 {
        Seq::empty()
    } else {
        let rest = login_pairs(es.drop_last());
        match es.last() {
            EntryRead::Login(p) => rest.push((p.host@, p.username@)),
            _ => rest,
        }
    }
}

/// The usernames saved for `host` (ASCII case ignored).
pub open spec fn usernames_for(es: Seq<EntryRead>, host: Seq<char>) -> Set<Seq<char>> {
    Set::new(
        |u: Seq<char>|
            exists|i: int| 0 <= i < es.len() && entry_is(#[trigger] es[i], host, u),
    )
}

/// The pairs of a list of summaries.
pub open spec fn summary_pairs(v: Seq<VaultLoginSummary>) -> Seq<(Seq<char>, Seq<char>)> {
    v.map_values(|s: VaultLoginSummary| (s.host@, s.username@))
}

/// Opens every stored entry under `key`, in order.
pub fn open_entries(file: &VaultFile, key: &[u8; 32]) -> (r: Vec<OpenedEntry>)
    ensures
        r@.len() == file.entries@.len(),
        forall|i: int|
            0 <= i < r@.len() ==> match #[trigger] r@[i] {
                OpenedEntry::Plain(p) => vault_opened(key@, file.entries@[i].nonce@, file.entries@[i].ciphertext@)
                    == Some(p@),
                OpenedEntry::Unopened => vault_opened(
                    key@,
                    file.entries@[i].nonce@,
                    file.entries@[i].ciphertext@,
                ) is None,
            },
{
    let mut out: Vec<OpenedEntry> = Vec::new();
    let mut i: usize = 0;
    while i < file.entries.len()
        invariant
            i <= file.entries@.len(),
            out@.len() == i,
            forall|k: int|
                0 <= k < i ==> match #[trigger] out@[k] {
                    OpenedEntry::Plain(p) => vault_opened(
                        key@,
                        file.entries@[k].nonce@,
                        file.entries@[k].ciphertext@,
                    ) == Some(p@),
                    OpenedEntry::Unopened => vault_opened(
                        key@,
                        file.entries@[k].nonce@,
                        file.entries@[k].ciphertext@,
                    ) is None,
                },
        decreases file.entries@.len() - i,
    {
        let e = &file.entries[i];
        let opened = match vault_decrypt(key, e.nonce.as_str(), e.ciphertext.as_str()) {
            Ok(p) => OpenedEntry::Plain(p),
            Err(_) => OpenedEntry::Unopened,
        };
        out.push(opened);
        i = i + 1;
    }
    out
}

/// Position of the first entry saved for `host` (ASCII case ignored) and
/// `username`; entries that could not be read are skipped.
pub fn find_vault_entry_index(entries: &[EntryRead], host: &str, username: &str) -> (r: Option<usize>)
    ensures
        match r {
            Some(i) => i < entries@.len() && entry_is(entries@[i as int], host@, username@) && forall|k: int|
                0 <= k < i ==> !entry_is(#[trigger] entries@[k], host@, username@),
            None => forall|k: int| 0 <= k < entries@.len() ==> !entry_is(#[trigger] entries@[k], host@, username@),
        },
{
    let mut i: usize = 0;
    while i < entries.len()
        invariant
            i <= entries@.len(),
            forall|k: int| 0 <= k < i ==> !entry_is(#[trigger] entries@[k], host@, username@),
        decreases entries@.len() - i,
    {
        match &entries[i] {
            EntryRead::Login(p) => {
                if str_eq_ignore_ascii_case(p.host.as_str(), host) && str_eq(p.username.as_str(), username) {
                    return Some(i);
                }
            },
            EntryRead::Unreadable => {},
        }
        i = i + 1;
    }
    None
}

/// Whether exactly this login is already saved (host's ASCII case ignored);
/// entries that could not be read are skipped.
pub fn login_already_saved(entries: &[EntryRead], host: &str, username: &str, password: &str) -> (r: bool)
    ensures
        r == exists|k: int| 0 <= k < entries@.len() && entry_holds(#[trigger] entries@[k], host@, username@, password@),
{
    let mut i: usize = 0;
    while i < entries.len()
        invariant
            i <= entries@.len(),
            forall|k: int| 0 <= k < i ==> !entry_holds(#[trigger] entries@[k], host@, username@, password@),
        decreases entries@.len() - i,
    {
        match &entries[i] {
            EntryRead::Login(p) => {
                if str_eq_ignore_ascii_case(p.host.as_str(), host) && str_eq(p.username.as_str(), username)
                    && str_eq(p.password.as_str(), password) {
                    assert(entry_holds(entries@[i as int], host@, username@, password@));
                    return true;
                }
            },
            EntryRead::Unreadable => {},
        }
        i = i + 1;
    }
    false
}

} // verus!
