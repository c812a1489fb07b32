//! Calls into the `base64` and `url` crates, and number formatting.
use vstd::prelude::*;
use base64::Engine;
use crate::text::push_char;

verus! {

/// What `base64`'s standard engine (`general_purpose::STANDARD`, padded)
/// encodes the bytes to.
pub uninterp spec fn b64_encode(bytes: Seq<u8>) -> Seq<char>;

/// What `base64`'s standard engine decodes the text to, or, when it
/// refuses it, the display text of its `DecodeError`.
pub uninterp spec fn b64_decoded(text: Seq<char>) -> Result<Seq<u8>, Seq<char>>;

/// The bytes standard base64 text decodes to; `None` when it does not.
pub open spec fn b64_decode(text: Seq<char>) -> Option<Seq<u8>> {
    match b64_decoded(text) {
        Ok(b) => Some(b),
        Err(_) => None,
    }
}

/// The host that `url::Url::parse` finds in the text (`Url::host_str`);
/// `None` when the text does not parse or the URL has no host.
pub uninterp spec fn url_host(text: Seq<char>) -> Option<Seq<char>>;

/// The scheme of the URL `url::Url::parse` reads from the text
/// (`Url::scheme`); `None` when it does not parse.
pub uninterp spec fn url_scheme(text: Seq<char>) -> Option<Seq<char>>;

/// The path of the URL `url::Url::parse` reads from the text (`Url::path`);
/// `None` when it does not parse.
pub uninterp spec fn url_path(text: Seq<char>) -> Option<Seq<char>>;

/// The serialization of the URL `url::Url::parse` reads from the text
/// (`Url::as_str`); `None` when it does not parse.
pub uninterp spec fn url_serialization(text: Seq<char>) -> Option<Seq<char>>;

/// `base64::engine::general_purpose::STANDARD.encode`: the standard
/// alphabet with padding, which the same engine decodes back to the bytes.
/// The crate panics when the encoded length overflows `usize`; `requires`
/// rules that out.
#[verifier::external_body]
pub(crate) fn base64_encode(bytes: &[u8]) -> (r: String)
    requires
        bytes@.len() / 3 * 4 + 4 <= usize::MAX,
    ensures
        r@ == b64_encode(bytes@),
        b64_decode(r@) == Some(bytes@),
{
    base64::engine::general_purpose::STANDARD.encode(bytes)
}

/// `base64::engine::general_purpose::STANDARD.decode`, its error turned
/// into its display text (`DecodeError`'s `Display`).
#[verifier::external_body]
fn base64_decode_raw(text: &str) -> (r: Result<Vec<u8>, String>)
    ensures
        match r {
            Ok(v) => b64_decoded(text@) == Ok::<Seq<u8>, Seq<char>>(v@),
            Err(m) => b64_decoded(text@) == Err::<Seq<u8>, Seq<char>>(m@),
        },
{
    match base64::engine::general_purpose::STANDARD.decode(text) {
        Ok(v) => Ok(v),
        Err(e) => Err(e.to_string()),
    }
}

/// Decodes standard base64; the error is the decoder's message.
pub fn base64_decode(text: &str) -> (r: Result<Vec<u8>, String>)
    ensures
        match r {
            Ok(v) => b64_decoded(text@) == Ok::<Seq<u8>, Seq<char>>(v@),
            Err(m) => b64_decoded(text@) == Err::<Seq<u8>, Seq<char>>(m@),
        },
{
    base64_decode_raw(text)
}

/// `url::Url::parse` followed by `Url::host_str`; `None` when the text does
/// not parse or the URL has no host.
#[verifier::external_body]
pub(crate) fn parse_url_host(text: &str) -> (r: Option<String>)
    ensures
        match r {
            Some(h) => url_host(text@) == Some(h@),
            None => url_host(text@) is None,
        },
{
    match url::Url::parse(text) {
        Ok(u) => match u.host_str() {
            Some(h) => Some(h.to_string()),
            None => None,
        },
        Err(_) => None,
    }
}

/// The display text of the `url::ParseError` that `url::Url::parse`
/// returns for the text, when it refuses it.
pub uninterp spec fn url_parse_error(text: Seq<char>) -> Seq<char>;

/// `url::Url::parse` followed by `Url::scheme`, the parse error turned
/// into its display text.
#[verifier::external_body]
fn parse_url_scheme_raw(text: &str) -> (r: Result<String, String>)
    ensures
        match r {
            Ok(s) => url_scheme(text@) == Some(s@),
            Err(m) => url_scheme(text@) is None && m@ == url_parse_error(text@),
        },
{
    match url::Url::parse(text) {
        Ok(u) => Ok(u.scheme().to_string()),
        Err(e) => Err(e.to_string()),
    }
}

/// The scheme of the URL `text` parses as; the error is the parser's
/// message.
pub fn parse_url_scheme(text: &str) -> (r: Result<String, String>)
    ensures
        match r {
            Ok(s) => url_scheme(text@) == Some(s@),
            Err(m) => url_scheme(text@) is None && m@ == url_parse_error(text@),
        },
{
    parse_url_scheme_raw(text)
}

/// `url::Url::parse` followed by `Url::path`; `None` when the text does
/// not parse.
#[verifier::external_body]
pub(crate) fn parse_url_path(text: &str) -> (r: Option<String>)
    ensures
        match r {
            Some(p) => url_path(text@) == Some(p@),
            None => url_path(text@) is None,
        },
{
    match url::Url::parse(text) {
        Ok(u) => Some(u.path().to_string()),
        Err(_) => None,
    }
}

/// `url::Url::parse` followed by `Url::as_str`, the parse error turned
/// into its display text.
#[verifier::external_body]
fn parse_url_serialization_raw(text: &str) -> (r: Result<String, String>)
    ensures
        match r {
            Ok(s) => url_serialization(text@) == Some(s@),
            Err(m) => url_serialization(text@) is None && m@ == url_parse_error(text@),
        },
{
    match url::Url::parse(text) {
        Ok(u) => Ok(u.as_str().to_string()),
        Err(e) => Err(e.to_string()),
    }
}

/// The serialization of the URL `text` parses as; the error is the
/// parser's message.
pub fn parse_url_serialization(text: &str) -> (r: Result<String, String>)
    ensures
        match r {
            Ok(s) => url_serialization(text@) == Some(s@),
            Err(m) => url_serialization(text@) is None && m@ == url_parse_error(text@),
        },
{
    parse_url_serialization_raw(text)
}

// ---------------------------------------------------------------------
// Number formatting
// ---------------------------------------------------------------------

/// The upper-case hexadecimal digit for `d < 16`.
pub open spec fn hex_digit(d: nat) -> char {
    if d == 0 { '0' }
    else if d == 1 { '1' }
    else if d == 2 { '2' }
    else if d == 3 { '3' }
    else if d == 4 { '4' }
    else if d == 5 { '5' }
    else if d == 6 { '6' }
    else if d == 7 { '7' }
    else if d == 8 { '8' }
    else if d == 9 { '9' }
    else if d == 10 { 'A' }
    else if d == 11 { 'B' }
    else if d == 12 { 'C' }
    else if d == 13 { 'D' }
    else if d == 14 { 'E' }
    else { 'F' }
}

/// `n` in upper-case hexadecimal, without leading zeros.
pub open spec fn hex_digits(n: nat) -> Seq<char>
    decreases n,
{
    if n < 16 {
        seq![hex_digit(n)]
    } else {
        hex_digits(n / 16).push(hex_digit(n % 16))
    }
}

/// An upper-case hexadecimal digit.
pub open spec fn upper_hex_char(c: char) -> bool {
    ('0' <= c && c <= '9') || ('A' <= c && c <= 'F')
}

/// Hexadecimal text is made of upper-case hexadecimal digits.
pub proof fn lemma_hex_digits_chars(n: nat)
    ensures
        forall|i: int| 0 <= i < hex_digits(n).len() ==> upper_hex_char(#[trigger] hex_digits(n)[i]),
    decreases n,
{
    if n >= 16 {
        lemma_hex_digits_chars(n / 16);
        let p = hex_digits(n / 16);
        assert forall|i: int| 0 <= i < hex_digits(n).len() implies upper_hex_char(#[trigger] hex_digits(n)[i]) by {
            if i < p.len() {
                assert(hex_digits(n)[i] == p[i]);
            }
        }
    }
}

/// `n` in upper-case hexadecimal, at least two digits (`{:02X}`).
pub open spec fn hex_min2(n: nat) -> Seq<char> {
    if n < 16 {
        seq!['0', hex_digit(n)]
    } else {
        hex_digits(n)
    }
}

/// Two-digit hexadecimal text is made of upper-case hexadecimal digits.
pub proof fn lemma_hex_min2_chars(n: nat)
    ensures
        forall|i: int| 0 <= i < hex_min2(n).len() ==> upper_hex_char(#[trigger] hex_min2(n)[i]),
{
    lemma_hex_digits_chars(n);
}

/// The decimal digit for `d < 10`.
pub open spec fn dec_digit(d: nat) -> char {
    hex_digit(d)
}

/// `n` in decimal, without leading zeros (`{}`).
pub open spec fn dec_digits(n: nat) -> Seq<char>
    decreases n,
{
    if n < 10 {
        seq![dec_digit(n)]
    } else {
        dec_digits(n / 10).push(dec_digit(n % 10))
    }
}

/// Different numbers are written with different decimal digits.
pub proof fn lemma_dec_digits_injective(a: nat, b: nat)
    requires
        dec_digits(a) == dec_digits(b),
    ensures
        a == b,
    decreases a + b,
{
    lemma_dec_digits_len(a);
    lemma_dec_digits_len(b);
    if a < 10 && b < 10 {
        assert(dec_digits(a)[0] == dec_digit(a));
        assert(dec_digits(b)[0] == dec_digit(b));
    } else if a >= 10 && b >= 10 {
        let da = dec_digits(a);
        let db = dec_digits(b);
        assert(da.last() == dec_digit(a % 10));
        assert(db.last() == dec_digit(b % 10));
        assert(da.drop_last() == dec_digits(a / 10));
        assert(db.drop_last() == dec_digits(b / 10));
        lemma_dec_digits_injective(a / 10, b / 10);
    }
}

/// One digit below 10, more from 10 on.
pub proof fn lemma_dec_digits_len(n: nat)
    ensures
        n < 10 ==> dec_digits(n).len() == 1,
        n >= 10 ==> dec_digits(n).len() >= 2,
    decreases n,
{
    if n >= 10 {
        lemma_dec_digits_len(n / 10);
    }
}

/// `n` in decimal, with a minus sign when negative (`{}` of an `i64`).
pub open spec fn signed_digits(n: int) -> Seq<char> {
    if n < 0 {
        seq!['-'] + dec_digits((-n) as nat)
    } else {
        dec_digits(n as nat)
    }
}

fn hex_char(d: u64) -> (c: char)
    requires
        d < 16,
    ensures
        c == hex_digit(d as nat),
{
    if d == 0 { '0' }
    else if d == 1 { '1' }
    else if d == 2 { '2' }
    else if d == 3 { '3' }
    else if d == 4 { '4' }
    else if d == 5 { '5' }
    else if d == 6 { '6' }
    else if d == 7 { '7' }
    else if d == 8 { '8' }
    else if d == 9 { '9' }
    else if d == 10 { 'A' }
    else if d == 11 { 'B' }
    else if d == 12 { 'C' }
    else if d == 13 { 'D' }
    else if d == 14 { 'E' }
    else { 'F' }
}

/// Appends `n` in upper-case hexadecimal.
pub fn push_hex(s: &mut String, n: u64)
    ensures
        final(s)@ == old(s)@ + hex_digits(n as nat),
    decreases n,
{
    if n >= 16 {
        push_hex(s, n / 16);
    }
    push_char(s, hex_char(n % 16));
    proof {
        if n >= 16 {
            assert(hex_digits(n as nat) == hex_digits((n / 16) as nat).push(hex_digit((n % 16) as nat)));
        }
    }
}

/// Appends `n` in upper-case hexadecimal with at least two digits.
pub fn push_hex_min2(s: &mut String, n: u64)
    ensures
        final(s)@ == old(s)@ + hex_min2(n as nat),
{
    if n < 16 {
        push_char(s, '0');
        push_char(s, hex_char(n));
        assert(s@ == old(s)@ + seq!['0', hex_digit(n as nat)]);
    } else {
        push_hex(s, n);
    }
}

/// Appends `n` in decimal.
pub fn push_decimal(s: &mut String, n: u64)
    ensures
        final(s)@ == old(s)@ + dec_digits(n as nat),
    decreases n,
{
    if n >= 10 {
        push_decimal(s, n / 10);
    }
    push_char(s, hex_char(n % 10));
    proof {
        if n >= 10 {
            assert(dec_digits(n as nat) == dec_digits((n / 10) as nat).push(dec_digit((n % 10) as nat)));
        }
    }
}

/// Appends `n` in decimal, with a minus sign when negative.
pub fn push_signed(s: &mut String, n: i64)
    ensures
        final(s)@ == old(s)@ + signed_digits(n as int),
{
    if n < 0 {
        push_char(s, '-');
        let m: u64 = if n == i64::MIN {
            9_223_372_036_854_775_808u64
        } else {
            (-n) as u64
        };
        push_decimal(s, m);
        assert(s@ == old(s)@ + (seq!['-'] + dec_digits(m as nat)));
    } else {
        push_decimal(s, n as u64);
    }
}

/// `n` in decimal, as a string.
pub fn decimal_string(n: u64) -> (r: String)
    ensures
        r@ == dec_digits(n as nat),
{
    let mut s = String::new();
    push_decimal(&mut s, n);
    s
}

// ---------------------------------------------------------------------
// JSON string literals
// ---------------------------------------------------------------------

#[verifier::external_type_specification]
#[verifier::external_body]
pub struct ExJsonError(serde_json::Error);

/// The lower-case hexadecimal digit for `d < 16`.
pub open spec fn hex_lower(d: nat) -> char {
    if d < 10 {
        (('0' as int) + d) as char
    } else {
        (('a' as int) + d - 10) as char
    }
}

/// How `serde_json` writes one character inside a string literal: quote,
/// backslash and the control characters escaped (`\b \t \n \f \r`, the
/// rest below U+0020 as `\u00xx`), everything else as is.
pub open spec fn json_escape_char(c: char) -> Seq<char> {
    if c == '"' {
        seq!['\\', '"']
    } else if c == '\\' {
        seq!['\\', '\\']
    } else if c == '\u{8}' {
        seq!['\\', 'b']
    } else if c == '\t' {
        seq!['\\', 't']
    } else if c == '\n' {
        seq!['\\', 'n']
    } else if c == '\u{c}' {
        seq!['\\', 'f']
    } else if c == '\r' {
        seq!['\\', 'r']
    } else if (c as int) < 0x20 {
        seq!['\\', 'u', '0', '0', hex_lower(((c as int) / 16) as nat), hex_lower(((c as int) % 16) as nat)]
    } else {
        seq![c]
    }
}

/// The escaped characters of a string literal's body.
pub open spec fn json_body(s: Seq<char>) -> Seq<char>
    decreases s.len(),
{
    if s.len() == 0 {
        Seq::empty()
    } else {
        json_body(s.drop_last()) + json_escape_char(s.last())
    }
}

/// The JSON string literal for `s`.
pub open spec fn json_quoted(s: Seq<char>) -> Seq<char> {
    seq!['"'] + json_body(s) + seq!['"']
}

/// `serde_json::to_string` of a string: per the crate's source it always
/// succeeds, writing the literal `json_quoted` describes.
#[verifier::external_body]
pub(crate) fn json_string(s: &str) -> (r: Result<String, serde_json::Error>)
    ensures
        r is Ok,
        r matches Ok(j) ==> j@ == json_quoted(s@),
{
    serde_json::to_string(s)
}

/// The JSON string literal for `s`, as the scripts handed to pages embed it.
pub fn json_literal(s: &str) -> (r: String)
    ensures
        r@ == json_quoted(s@),
{
    match json_string(s) {
        Ok(j) => j,
        Err(_) => "\"\"".to_owned(),
    }
}

} // verus!
