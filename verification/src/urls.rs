//! Addresses: what the address bar and the home page's search box turn
//! typed text into, custom homepage validation, internal `kite://` pages,
//! image and favicon naming, and `data:` URIs.
use vstd::prelude::*;
use crate::encoding::{
    b64_decode, b64_decoded, b64_encode, base64_decode, base64_encode, hex_min2, parse_url_path,
    parse_url_scheme, parse_url_serialization, push_hex_min2, url_path, url_scheme,
    url_parse_error, url_serialization, dec_digits, json_literal, json_quoted, push_decimal, lemma_hex_min2_chars,
    upper_hex_char,
};
use crate::text::{
    all_ascii, alphanumeric, ascii_alphanumeric, before_char, lemma_before_char_free,
    lemma_index_of_at, lemma_trim_keeps_chars, chars_eq_str, chars_of, contains_char, ends_with, find_char_from,
    has_char, has_prefix, has_suffix, index_of, is_alphanumeric, lowercase, lowercase_chars,
    push_chars, push_str, slice_to_vec, starts_with, str_eq, string_of, trim, trim_chars,
};

verus! {

/// The friendly address of Kite's own new-tab/home page.
pub const HOME_URL: &'static str = "kite://home";

/// The address of an empty page.
pub const BLANK_URL: &'static str = "about:blank";

/// Marker address that makes a new tab load the bundled crash-recovery page.
pub const CRASHED_ASSET_MARKER: &'static str = "kite-internal://crashed";

// ---------------------------------------------------------------------
// Specifications
// ---------------------------------------------------------------------

/// How one character of a search query is written into a query string:
/// space as `+`, alphanumerics as themselves, anything else as `%` and the
/// character's code point in upper-case hex (at least two digits).
pub open spec fn encode_query_char(c: char) -> Seq<char> {
    if c == ' ' {
        seq!['+']
    } else if alphanumeric(c) {
        seq![c]
    } else {
        seq!['%'] + hex_min2(c as u32 as nat)
    }
}

/// A search query written into a query string, character by character.
pub open spec fn urlencoded(s: Seq<char>) -> Seq<char>
    decreases s.len(),
{
    if s.len() == 0 {
        seq![]
    } else {
        urlencoded(s.drop_last()) + encode_query_char(s.last())
    }
}

/// The search URL prefix of an engine; Google for `google` and for any
/// name it does not know.
pub open spec fn search_prefix(engine: Seq<char>) -> Seq<char> {
    if engine == "bing"@ {
        "https://www.bing.com/search?q="@
    } else if engine == "duckduckgo"@ {
        "https://duckduckgo.com/?q="@
    } else {
        "https://www.google.com/search?q="@
    }
}

/// The search URL for `query` on `engine`.
pub open spec fn search_url(engine: Seq<char>, query: Seq<char>) -> Seq<char> {
    search_prefix(engine) + urlencoded(query)
}

/// Text that already starts with `http://` or `https://`.
pub open spec fn has_web_scheme(t: Seq<char>) -> bool {
    has_prefix(t, "http://"@) || has_prefix(t, "https://"@)
}

/// Text that looks like a bare host name: it has a dot and no space.
pub open spec fn looks_like_host(t: Seq<char>) -> bool {
    has_char(t, '.') && !has_char(t, ' ')
}

/// What typed address-bar text navigates to: the trimmed text itself when
/// it has a web scheme, `https://` and the text when it looks like a host,
/// and otherwise a search for it on `engine`.
pub open spec fn normalized_url(input: Seq<char>, engine: Seq<char>) -> Seq<char> {
    let t = trim(input);
    if has_web_scheme(t) {
        t
    } else if looks_like_host(t) {
        "https://"@ + t
    } else {
        search_url(engine, t)
    }
}

/// What a typed custom homepage is stored as, or the error shown for it:
/// like `normalized_url`, except that empty or search-like text is refused
/// rather than searched for.
pub open spec fn normalized_homepage(input: Seq<char>) -> Result<Seq<char>, Seq<char>> {
    let t = trim(input);
    if t.len() == 0 {
        Err("enter a URL for the custom homepage"@)
    } else if has_web_scheme(t) {
        Ok(t)
    } else if looks_like_host(t) {
        Ok("https://"@ + t)
    } else {
        Err("'"@ + t + "' doesn't look like a valid URL"@)
    }
}

/// The image file extension a content type names (its part before any `;`,
/// trimmed).
pub open spec fn extension_for(ct: Seq<char>) -> Option<Seq<char>> {
    let t = trim(before_char(ct, ';'));
    if t == "image/png"@ {
        Some("png"@)
    } else if t == "image/jpeg"@ || t == "image/jpg"@ {
        Some("jpg"@)
    } else if t == "image/gif"@ {
        Some("gif"@)
    } else if t == "image/webp"@ {
        Some("webp"@)
    } else if t == "image/bmp"@ {
        Some("bmp"@)
    } else {
        None
    }
}

/// The MIME type guessed from an icon URL's extension, compared
/// lower-cased; `image/x-icon` when none matches.
pub open spec fn favicon_mime(icon_url: Seq<char>) -> Seq<char> {
    let l = lowercase(icon_url);
    if has_suffix(l, ".png"@) {
        "image/png"@
    } else if has_suffix(l, ".svg"@) {
        "image/svg+xml"@
    } else if has_suffix(l, ".gif"@) {
        "image/gif"@
    } else if has_suffix(l, ".jpg"@) || has_suffix(l, ".jpeg"@) {
        "image/jpeg"@
    } else {
        "image/x-icon"@
    }
}

/// The MIME type a favicon is stored under: the response's content type
/// (before any `;`, trimmed) when it is an `image/` type, else the guess
/// from the icon URL.
pub open spec fn favicon_data_mime(content_type: Option<Seq<char>>, icon_url: Seq<char>) -> Seq<
    char,
> {
    match content_type {
        Some(ct) => {
            let t = trim(before_char(ct, ';'));
            if has_prefix(t, "image/"@) {
                t
            } else {
                favicon_mime(icon_url)
            }
        },
        None => favicon_mime(icon_url),
    }
}

/// A `data:` URL written as `data:<mime>;base64,<text>` reads back as the
/// bytes the text decodes to, under that MIME type, when the type is
/// non-empty and holds neither `,` nor `;`.
pub proof fn lemma_base64_data_url_contents(mime: Seq<char>, text: Seq<char>, bytes: Seq<u8>)
    requires
        mime.len() > 0,
        !has_char(mime, ','),
        !has_char(mime, ';'),
        b64_decode(text) == Some(bytes),
    ensures
        data_uri_contents("data:"@ + mime + ";base64,"@ + text) == Ok::<(Seq<u8>, Option<Seq<char>>), Option<Seq<char>>>((bytes, Some(mime))),
{
    reveal_strlit("data:");
    reveal_strlit(";base64,");
    reveal_strlit("base64");
    reveal_strlit(";base64");
    let src = "data:"@ + mime + ";base64,"@ + text;
    let rest = src.skip(5);
    let m = mime.len() as int;
    assert(rest =~= mime + ";base64,"@ + text);
    assert forall|j: int| 0 <= j < m + 7 implies rest[j] != ',' by {
        if j < m {
            assert(rest[j] == mime[j]);
        }
    }
    assert(rest[m + 7] == ',');
    lemma_index_of_at(rest, ',', m + 7);
    let meta = rest.take(m + 7);
    assert(meta =~= mime + ";base64"@);
    assert(rest.skip(m + 8) =~= text);
    assert forall|j: int| 0 <= j < m implies meta[j] != ';' by {
        assert(meta[j] == mime[j]);
    }
    assert(meta[m] == ';');
    lemma_index_of_at(meta, ';', m);
    assert(meta.take(m) =~= mime);
    assert(occurs_at(meta, "base64"@, m + 1)) by {
        assert(meta.subrange(m + 1, m + 7) =~= "base64"@);
    }
}

/// The `data:` URL a fetched favicon is kept as.
pub open spec fn favicon_data_url(bytes: Seq<u8>, content_type: Option<Seq<char>>, icon_url: Seq<char>) -> Seq<char> {
    "data:"@ + favicon_data_mime(content_type, icon_url) + ";base64,"@ + b64_encode(bytes)
}

/// What follows the last `c` in `s` (all of `s` when there is none).
pub open spec fn after_last(s: Seq<char>, c: char) -> Seq<char>
    decreases s.len(),
{
    if s.len() == 0 {
        s
    } else if s.last() == c {
        seq![]
    } else {
        after_last(s.drop_last(), c).push(s.last())
    }
}

/// The last path segment of a URL's path, as `Url::path_segments` followed
/// by `next_back` gives it: `None` when the path does not start with `/`.
pub open spec fn last_path_segment(path: Seq<char>) -> Option<Seq<char>> {
    if has_prefix(path, "/"@) {
        Some(after_last(path, '/'))
    } else {
        None
    }
}

/// The file name suggested when saving an image: the URL's last path
/// segment when it looks like a file name (non-empty, with a dot), else
/// `image.` and the extension of the content type (`png` by default).
pub open spec fn suggested_file_name(src: Seq<char>, content_type: Option<Seq<char>>) -> Seq<char> {
    let from_url: Option<Seq<char>> = if has_prefix(src, "data:"@) {
        None
    } else {
        match url_path(src) {
            Some(p) => match last_path_segment(p) {
                Some(last) => if last.len() > 0 && has_char(last, '.') {
                    Some(last)
                } else {
                    None
                },
                None => None,
            },
            None => None,
        }
    };
    match from_url {
        Some(name) => name,
        None => {
            let ext = match content_type {
                Some(ct) => match extension_for(ct) {
                    Some(e) => e,
                    None => "png"@,
                },
                None => "png"@,
            };
            "image."@ + ext
        },
    }
}

/// `p` occurs in `s` starting at position `i`.
pub open spec fn occurs_at(s: Seq<char>, p: Seq<char>, i: int) -> bool {
    0 <= i <= s.len() - p.len() && s.subrange(i, i + p.len()) == p
}

/// `p` occurs in `s` as a contiguous run.
pub open spec fn has_substring(s: Seq<char>, p: Seq<char>) -> bool {
    exists|i: int| #[trigger] occurs_at(s, p, i)
}

/// The decoded image a `data:` URI carries, or the error for it: the bytes
/// (base64-decoded when the metadata says `base64`, else the payload's
/// UTF-8 bytes) and the content type named before any `;`, if non-empty.
/// A base64 error's text is the decoder's own.
pub open spec fn data_uri_contents(src: Seq<char>) -> Result<
    (Seq<u8>, Option<Seq<char>>),
    Option<Seq<char>>,
>
    recommends
        has_prefix(src, "data:"@),
{
    let rest = src.skip(5);
    match index_of(rest, ',') {
        None => Err(Some("malformed data URI"@)),
        Some(comma) => {
            let meta = rest.take(comma as int);
            let payload = rest.skip(comma as int + 1);
            let ct = before_char(meta, ';');
            let content_type = if ct.len() > 0 {
                Some(ct)
            } else {
                None
            };
            if has_substring(meta, "base64"@) {
                match b64_decoded(payload) {
                    Ok(bytes) => Ok((bytes, content_type)),
                    Err(m) => Err(Some(m)),
                }
            } else {
                Ok((vstd::utf8::encode_utf8(payload), content_type))
            }
        },
    }
}

/// The library views `kite://<page>` maps to, a trailing `/` ignored.
pub open spec fn internal_view(page: Seq<char>) -> Option<Seq<char>> {
    let p = trim_trailing_slashes(page);
    if p == "history"@ || p == "bookmarks"@ || p == "downloads"@ || p == "settings"@ || p
        == "passwords"@ {
        Some(p)
    } else {
        None
    }
}

/// `s` without its trailing `/` characters.
pub open spec fn trim_trailing_slashes(s: Seq<char>) -> Seq<char>
    decreases s.len(),
{
    if s.len() > 0 && s.last() == '/' {
        trim_trailing_slashes(s.drop_last())
    } else {
        s
    }
}

// ---------------------------------------------------------------------
// Executable functions
// ---------------------------------------------------------------------

/// A character a query string is written with: `+`, `%`, or an ASCII
/// letter or digit.
pub open spec fn query_text_char(c: char) -> bool {
    c == '+' || c == '%' || ascii_alphanumeric(c)
}

/// Writes a search query into a query string: space as `+`, alphanumerics
/// unchanged, anything else as `%` and its code point in upper-case hex.
/// The text holds only `+`, `%`, ASCII letters and digits, and the input's
/// own (Unicode) alphanumerics; only the former for ASCII input.
pub fn urlencode(s: &str) -> (r: String)
    ensures
        r@ == urlencoded(s@),
        forall|i: int| 0 <= i < r@.len() ==> query_text_char(#[trigger] r@[i]) || alphanumeric(r@[i]),
        all_ascii(s@) ==> forall|i: int| 0 <= i < r@.len() ==> query_text_char(#[trigger] r@[i]),
{
    let cs = chars_of(s);
    let mut out = String::new();
    let mut i: usize = 0;
    while i < cs.len()
        invariant
            i <= cs@.len(),
            cs@ == s@,
            out@ == urlencoded(cs@.take(i as int)),
            forall|j: int| 0 <= j < out@.len() ==> query_text_char(#[trigger] out@[j]) || alphanumeric(out@[j]),
            all_ascii(s@) ==> forall|j: int| 0 <= j < out@.len() ==> query_text_char(#[trigger] out@[j]),
        decreases cs@.len() - i,
    {
        let c = cs[i];
        let ghost before = out@;
        proof {
            assert(c == s@[i as int]);
        }
        if c == ' ' {
            push_str(&mut out, "+");
            proof {
                reveal_strlit("+");
            }
        } else if is_alphanumeric(c) {
            crate::text::push_char(&mut out, c);
        } else {
            crate::text::push_char(&mut out, '%');
            push_hex_min2(&mut out, c as u32 as u64);
            proof {
                lemma_hex_min2_chars(c as u32 as nat);
                let h = hex_min2(c as u32 as nat);
                assert forall|j: int| before.len() + 1 <= j < out@.len() implies query_text_char(#[trigger] out@[j]) by {
                    assert(out@[j] == h[j - before.len() - 1]);
                    assert(upper_hex_char(h[j - before.len() - 1]));
                }
            }
        }
        proof {
            assert forall|j: int| 0 <= j < before.len() implies out@[j] == before[j] by {}
            let t = cs@.take(i + 1);
            assert(t.drop_last() == cs@.take(i as int));
            assert(t.last() == c);
            assert(out@ == urlencoded(cs@.take(i as int)) + encode_query_char(c));
        }
        i = i + 1;
    }
    assert(cs@.take(cs@.len() as int) == cs@);
    out
}

/// The search URL for `query` on `engine` (`google`, `bing` or
/// `duckduckgo`; anything else searches Google).
pub fn search_url_for(engine: &str, query: &str) -> (r: String)
    ensures
        r@ == search_url(engine@, query@),
{
    let q = urlencode(query);
    let mut out = String::new();
    if chars_eq_str(chars_of(engine).as_slice(), "bing") {
        push_str(&mut out, "https://www.bing.com/search?q=");
    } else if chars_eq_str(chars_of(engine).as_slice(), "duckduckgo") {
        push_str(&mut out, "https://duckduckgo.com/?q=");
    } else {
        push_str(&mut out, "https://www.google.com/search?q=");
    }
    push_str(&mut out, q.as_str());
    out
}

/// Whether text starts with a web scheme.
fn web_scheme(t: &[char]) -> (r: bool)
    ensures
        r == has_web_scheme(t@),
{
    starts_with(t, "http://") || starts_with(t, "https://")
}

/// Whether text looks like a bare host name.
fn host_like(t: &[char]) -> (r: bool)
    ensures
        r == looks_like_host(t@),
{
    contains_char(t, '.') && !contains_char(t, ' ')
}

/// What typed address-bar text navigates to: the trimmed text when it has
/// a web scheme, `https://` and the text when it looks like a host name,
/// otherwise a search for it on `search_engine`.
pub fn normalize_url(input: &str, search_engine: &str) -> (r: String)
    ensures
        r@ == normalized_url(input@, search_engine@),
{
    let t = trim_chars(chars_of(input).as_slice());
    if web_scheme(t.as_slice()) {
        string_of(t.as_slice())
    } else if host_like(t.as_slice()) {
        let mut out = String::new();
        push_str(&mut out, "https://");
        push_chars(&mut out, t.as_slice());
        out
    } else {
        let ts = string_of(t.as_slice());
        search_url_for(search_engine, ts.as_str())
    }
}

/// What a typed custom homepage is stored as: like `normalize_url`, but
/// empty or search-like text is refused with a message instead.
pub fn normalize_homepage_url(input: &str) -> (r: Result<String, String>)
    ensures
        match r {
            Ok(s) => normalized_homepage(input@) == Ok::<Seq<char>, Seq<char>>(s@),
            Err(e) => normalized_homepage(input@) == Err::<Seq<char>, Seq<char>>(e@),
        },
{
    let t = trim_chars(chars_of(input).as_slice());
    if t.len() == 0 {
        let mut e = String::new();
        push_str(&mut e, "enter a URL for the custom homepage");
        return Err(e);
    }
    if web_scheme(t.as_slice()) {
        return Ok(string_of(t.as_slice()));
    }
    if host_like(t.as_slice()) {
        let mut out = String::new();
        push_str(&mut out, "https://");
        push_chars(&mut out, t.as_slice());
        return Ok(out);
    }
    let mut e = String::new();
    push_str(&mut e, "'");
    push_chars(&mut e, t.as_slice());
    push_str(&mut e, "' doesn't look like a valid URL");
    Err(e)
}

/// Whether a navigated-to URL is the bundled home page (whatever internal
/// scheme and host the platform resolved it to).
pub fn is_home_asset_url(url: &str) -> (r: bool)
    ensures
        r == (has_suffix(url@, "home.html"@) || has_suffix(url@, "home.html/"@)),
{
    let cs = chars_of(url);
    ends_with(cs.as_slice(), "home.html") || ends_with(cs.as_slice(), "home.html/")
}

/// Whether a navigated-to URL is the bundled crash-recovery page.
pub fn is_crashed_asset_url(url: &str) -> (r: bool)
    ensures
        r == (has_suffix(url@, "crashed.html"@) || has_suffix(url@, "crashed.html/"@)),
{
    let cs = chars_of(url);
    ends_with(cs.as_slice(), "crashed.html") || ends_with(cs.as_slice(), "crashed.html/")
}

/// The image file extension for a content type, if it is one of the
/// recognised image types.
pub fn extension_for_content_type(ct: &str) -> (r: Option<&'static str>)
    ensures
        match r {
            Some(e) => extension_for(ct@) == Some(e@),
            None => extension_for(ct@) is None,
        },
{
    let cs = chars_of(ct);
    let cut = match find_char_from(cs.as_slice(), ';', 0) {
        Some(k) => slice_to_vec(cs.as_slice(), 0, k),
        None => cs,
    };
    proof {
        assert(ct@.skip(0) == ct@);
        assert(cut@ == before_char(ct@, ';'));
    }
    let t = trim_chars(cut.as_slice());
    if chars_eq_str(t.as_slice(), "image/png") {
        Some("png")
    } else if chars_eq_str(t.as_slice(), "image/jpeg") || chars_eq_str(t.as_slice(), "image/jpg") {
        Some("jpg")
    } else if chars_eq_str(t.as_slice(), "image/gif") {
        Some("gif")
    } else if chars_eq_str(t.as_slice(), "image/webp") {
        Some("webp")
    } else if chars_eq_str(t.as_slice(), "image/bmp") {
        Some("bmp")
    } else {
        None
    }
}

/// Guesses an icon's MIME type from its URL's extension, for when the
/// response names none; `image/x-icon` (a bare `favicon.ico`) by default.
pub fn guess_favicon_mime(icon_url: &str) -> (r: &'static str)
    ensures
        r@ == favicon_mime(icon_url@),
{
    let l = lowercase_chars(chars_of(icon_url).as_slice());
    if ends_with(l.as_slice(), ".png") {
        "image/png"
    } else if ends_with(l.as_slice(), ".svg") {
        "image/svg+xml"
    } else if ends_with(l.as_slice(), ".gif") {
        "image/gif"
    } else if ends_with(l.as_slice(), ".jpg") || ends_with(l.as_slice(), ".jpeg") {
        "image/jpeg"
    } else {
        "image/x-icon"
    }
}

/// The part of `s` before any `;`, trimmed.
fn media_type(s: &str) -> (r: Vec<char>)
    ensures
        r@ == trim(before_char(s@, ';')),
{
    let cs = chars_of(s);
    let cut = match find_char_from(cs.as_slice(), ';', 0) {
        Some(k) => slice_to_vec(cs.as_slice(), 0, k),
        None => cs,
    };
    proof {
        assert(s@.skip(0) == s@);
        assert(cut@ == before_char(s@, ';'));
    }
    trim_chars(cut.as_slice())
}

/// The `data:` URL a fetched favicon is kept as, so the interface can show
/// it directly: its MIME type (from the response when it names an image
/// type, else guessed from the URL) and its bytes in base64. Read back
/// (see `data_uri_image`), it gives the same bytes under that MIME type,
/// when the type holds no `,`.
pub fn build_favicon_data_url(bytes: &[u8], content_type: Option<&str>, icon_url: &str) -> (r: String)
    requires
        bytes@.len() / 3 * 4 + 4 <= usize::MAX,
    ensures
        r@ == favicon_data_url(
            bytes@,
            match content_type {
                Some(ct) => Some(ct@),
                None => None,
            },
            icon_url@,
        ),
        ({
            let mime = favicon_data_mime(
                match content_type {
                    Some(ct) => Some(ct@),
                    None => None,
                },
                icon_url@,
            );
            !has_char(mime, ',') ==> data_uri_contents(r@) == Ok::<(Seq<u8>, Option<Seq<char>>), Option<Seq<char>>>((bytes@, Some(mime)))
        }),
        has_prefix(r@, "data:"@),
{
    let mut out = String::new();
    push_str(&mut out, "data:");
    match content_type {
        Some(ct) => {
            let t = media_type(ct);
            if starts_with(t.as_slice(), "image/") {
                push_chars(&mut out, t.as_slice());
            } else {
                push_str(&mut out, guess_favicon_mime(icon_url));
            }
        },
        None => {
            push_str(&mut out, guess_favicon_mime(icon_url));
        },
    }
    push_str(&mut out, ";base64,");
    let encoded = base64_encode(bytes);
    push_str(&mut out, encoded.as_str());
    proof {
        let cto = match content_type {
            Some(ct) => Some(ct@),
            None => None,
        };
        let mime = favicon_data_mime(cto, icon_url@);
        lemma_favicon_mime_plain(cto, icon_url@);
        reveal_strlit("data:");
        assert(out@.take(5) =~= "data:"@);
        if !has_char(mime, ',') {
            lemma_base64_data_url_contents(mime, encoded@, bytes@);
            reveal_strlit("data:");
            reveal_strlit(";base64,");
            assert(out@ =~= "data:"@ + mime + ";base64,"@ + encoded@);
        }
    }
    out
}

/// The MIME type a favicon is stored under is non-empty and holds no `;`.
proof fn lemma_favicon_mime_plain(content_type: Option<Seq<char>>, icon_url: Seq<char>)
    ensures
        favicon_data_mime(content_type, icon_url).len() > 0,
        !has_char(favicon_data_mime(content_type, icon_url), ';'),
{
    reveal_strlit("image/png");
    reveal_strlit("image/svg+xml");
    reveal_strlit("image/gif");
    reveal_strlit("image/jpeg");
    reveal_strlit("image/x-icon");
    reveal_strlit("image/");
    match content_type {
        Some(ct) => {
            let t = trim(before_char(ct, ';'));
            if has_prefix(t, "image/"@) {
                lemma_before_char_free(ct, ';');
                lemma_trim_keeps_chars(before_char(ct, ';'), ';');
            }
        },
        None => {},
    }
}

/// What follows the last `c` in `cs`.
fn after_last_char(cs: &[char], c: char) -> (r: Vec<char>)
    ensures
        r@ == after_last(cs@, c),
{
    let mut k = cs.len();
    assert(cs@.take(k as int) == cs@);
    assert(cs@.skip(k as int) == Seq::<char>::empty());
    while k > 0 && cs[k - 1] != c
        invariant
            k <= cs@.len(),
            after_last(cs@, c) == after_last(cs@.take(k as int), c) + cs@.skip(k as int),
        decreases k,
    {
        proof {
            let t = cs@.take(k as int);
            assert(t.drop_last() == cs@.take(k - 1));
            assert(t.last() == cs@[k - 1]);
            assert(cs@.skip(k - 1) == seq![cs@[k - 1]] + cs@.skip(k as int));
        }
        k = k - 1;
    }
    proof {
        assert(cs@.take(cs@.len() as int) == cs@);
        assert(cs@.skip(cs@.len() as int) == Seq::<char>::empty());
        let t = cs@.take(k as int);
        if k > 0 {
            assert(t.last() == c);
        }
        assert(after_last(t, c) == Seq::<char>::empty());
        assert(cs@.skip(k as int) == cs@.subrange(k as int, cs@.len() as int));
    }
    slice_to_vec(cs, k, cs.len())
}

/// The file name offered when saving an image: the URL's last path segment
/// if it looks like a file name, otherwise `image.` and the extension the
/// content type implies (`png` by default).
pub fn suggested_image_file_name(src: &str, content_type: Option<&str>) -> (r: String)
    ensures
        r@ == suggested_file_name(
            src@,
            match content_type {
                Some(ct) => Some(ct@),
                None => None,
            },
        ),
{
    let cs = chars_of(src);
    if !starts_with(cs.as_slice(), "data:") {
        match parse_url_path(src) {
            Some(p) => {
                let pc = chars_of(p.as_str());
                if starts_with(pc.as_slice(), "/") {
                    let last = after_last_char(pc.as_slice(), '/');
                    if last.len() > 0 && contains_char(last.as_slice(), '.') {
                        return string_of(last.as_slice());
                    }
                }
            },
            None => {},
        }
    }
    let ext = match content_type {
        Some(ct) => match extension_for_content_type(ct) {
            Some(e) => e,
            None => "png",
        },
        None => "png",
    };
    let mut out = String::new();
    push_str(&mut out, "image.");
    push_str(&mut out, ext);
    out
}

/// Whether `p` occurs in `s` as a contiguous run.
fn contains_run(s: &[char], p: &str) -> (r: bool)
    ensures
        r == has_substring(s@, p@),
{
    let pc = chars_of(p);
    if pc.len() > s.len() {
        return false;
    }
    if pc.len() == 0 {
        assert(s@.subrange(0, 0) =~= pc@);
        assert(occurs_at(s@, pc@, 0));
        return true;
    }
    let n = s.len();
    let mut i: usize = 0;
    let last = s.len() - pc.len();
    while i <= last
        invariant
            n == s@.len(),
            pc@.len() > 0,
            pc@ == p@,
            pc@.len() <= s@.len(),
            last == s@.len() - pc@.len(),
            i <= last + 1,
            forall|j: int| 0 <= j < i ==> !#[trigger] occurs_at(s@, pc@, j),
        decreases last + 1 - i,
    {
        let run = slice_to_vec(s, i, i + pc.len());
        if crate::text::chars_eq(run.as_slice(), pc.as_slice()) {
            assert(occurs_at(s@, pc@, i as int));
            return true;
        }
        i = i + 1;
    }
    false
}

/// `str::as_bytes` of a string built from characters: their UTF-8 bytes.
fn utf8_bytes(cs: &[char]) -> (r: Vec<u8>)
    ensures
        r@ == vstd::utf8::encode_utf8(cs@),
{
    let s = string_of(cs);
    let b = s.as_str().as_bytes();
    let mut v: Vec<u8> = Vec::new();
    let mut i: usize = 0;
    while i < b.len()
        invariant
            i <= b@.len(),
            v@ == b@.take(i as int),
        decreases b@.len() - i,
    {
        v.push(b[i]);
        assert(b@.take(i + 1) == b@.take(i as int).push(b@[i as int]));
        i = i + 1;
    }
    assert(b@.take(b@.len() as int) == b@);
    v
}

/// Decodes an inline `data:` image URI: `None` when `src` is not one;
/// otherwise its bytes (base64-decoded when its metadata says `base64`,
/// else the raw payload) and its content type, or an error.
pub fn data_uri_image(src: &str) -> (r: Option<Result<(Vec<u8>, Option<String>), String>>)
    ensures
        has_prefix(src@, "data:"@) <==> r is Some,
        r matches Some(res) ==> match (res, data_uri_contents(src@)) {
            (Ok((bytes, ct)), Ok((sb, sct))) => bytes@ == sb && match (ct, sct) {
                (Some(a), Some(b)) => a@ == b,
                (None, None) => true,
                _ => false,
            },
            (Err(e), Err(se)) => se matches Some(m) ==> e@ == m,
            _ => false,
        },
{
    let cs = chars_of(src);
    if !starts_with(cs.as_slice(), "data:") {
        return None;
    }
    proof {
        reveal_strlit("data:");
    }
    let rest = slice_to_vec(cs.as_slice(), 5, cs.len());
    assert(rest@ == src@.skip(5));
    let comma = match find_char_from(rest.as_slice(), ',', 0) {
        Some(k) => k,
        None => {
            assert(rest@.skip(0) == rest@);
            let mut e = String::new();
            push_str(&mut e, "malformed data URI");
            return Some(Err(e));
        },
    };
    assert(rest@.skip(0) == rest@);
    let meta = slice_to_vec(rest.as_slice(), 0, comma);
    let payload = slice_to_vec(rest.as_slice(), comma + 1, rest.len());
    assert(meta@ == rest@.take(comma as int));
    assert(payload@ == rest@.skip(comma + 1));
    let ct_cut = match find_char_from(meta.as_slice(), ';', 0) {
        Some(k) => slice_to_vec(meta.as_slice(), 0, k),
        None => slice_to_vec(meta.as_slice(), 0, meta.len()),
    };
    proof {
        assert(meta@.skip(0) == meta@);
        assert(meta@.subrange(0, meta@.len() as int) == meta@);
        assert(ct_cut@ == before_char(meta@, ';'));
    }
    let content_type = if ct_cut.len() > 0 {
        Some(string_of(ct_cut.as_slice()))
    } else {
        None
    };
    if contains_run(meta.as_slice(), "base64") {
        let text = string_of(payload.as_slice());
        match base64_decode(text.as_str()) {
            Ok(bytes) => Some(Ok((bytes, content_type))),
            Err(e) => Some(Err(e)),
        }
    } else {
        Some(Ok((utf8_bytes(payload.as_slice()), content_type)))
    }
}

/// Whether an image URL can be fetched over the network: it must parse as
/// a URL with an `http` or `https` scheme. The error for an unparsable URL
/// is the parser's own message.
pub fn check_remote_image_url(src: &str) -> (r: Result<(), String>)
    ensures
        match url_scheme(src@) {
            Some(s) => (r is Ok) == (s == "http"@ || s == "https"@) && (r matches Err(e) ==> e@
                == "unsupported image URL scheme"@),
            None => r matches Err(e) && e@ == url_parse_error(src@),
        },
{
    match parse_url_scheme(src) {
        Ok(scheme) => {
            let sc = chars_of(scheme.as_str());
            if !chars_eq_str(sc.as_slice(), "http") && !chars_eq_str(sc.as_slice(), "https") {
                let mut e = String::new();
                push_str(&mut e, "unsupported image URL scheme");
                Err(e)
            } else {
                Ok(())
            }
        },
        Err(e) => Err(e),
    }
}

/// The library view `kite://<page>` opens, or the error for an unknown page.
pub fn internal_page_view(page: &str) -> (r: Result<&'static str, String>)
    ensures
        match r {
            Ok(v) => internal_view(page@) == Some(v@),
            Err(e) => internal_view(page@) is None && e@ == "unknown internal page: kite://"@
                + trim_trailing_slashes(page@),
        },
{
    let cs = chars_of(page);
    let mut k = cs.len();
    assert(cs@.take(k as int) == cs@);
    while k > 0 && cs[k - 1] == '/'
        invariant
            k <= cs@.len(),
            trim_trailing_slashes(cs@) == trim_trailing_slashes(cs@.take(k as int)),
        decreases k,
    {
        assert(cs@.take(k as int).drop_last() == cs@.take(k - 1));
        k = k - 1;
    }
    let p = slice_to_vec(cs.as_slice(), 0, k);
    proof {
        assert(cs@.take(cs@.len() as int) == cs@);
        assert(p@ == cs@.take(k as int));
        assert(trim_trailing_slashes(p@) == p@);
    }
    if chars_eq_str(p.as_slice(), "history") {
        Ok("history")
    } else if chars_eq_str(p.as_slice(), "bookmarks") {
        Ok("bookmarks")
    } else if chars_eq_str(p.as_slice(), "downloads") {
        Ok("downloads")
    } else if chars_eq_str(p.as_slice(), "settings") {
        Ok("settings")
    } else if chars_eq_str(p.as_slice(), "passwords") {
        Ok("passwords")
    } else {
        let mut e = String::new();
        push_str(&mut e, "unknown internal page: kite://");
        push_chars(&mut e, p.as_slice());
        Err(e)
    }
}

/// Where an address-bar navigation goes.
pub enum NavTarget {
    /// A `kite://` library page, by its view name.
    Internal(String),
    /// A web address.
    Web(String),
}

/// Routes typed address-bar text: `kite://<page>` (after trimming) goes to
/// that library page; anything else to the URL `normalize_url` makes of it.
pub fn navigation_target(input: &str, search_engine: &str) -> (r: NavTarget)
    ensures
        has_prefix(trim(input@), "kite://"@) ==> (r matches NavTarget::Internal(p) && p@ == trim(
            input@,
        ).skip(7)),
        !has_prefix(trim(input@), "kite://"@) ==> (r matches NavTarget::Web(u) && u@
            == normalized_url(input@, search_engine@)),
{
    let t = trim_chars(chars_of(input).as_slice());
    if starts_with(t.as_slice(), "kite://") {
        proof {
            reveal_strlit("kite://");
        }
        let page = slice_to_vec(t.as_slice(), 7, t.len());
        assert(page@ == t@.skip(7));
        NavTarget::Internal(string_of(page.as_slice()))
    } else {
        NavTarget::Web(normalize_url(input, search_engine))
    }
}

/// Largest favicon accepted, in bytes.
pub const MAX_FAVICON_BYTES: usize = 524_288;

/// The icon URL to fetch for a favicon a page reported: its serialization
/// when it parses with an `http` or `https` scheme, `None` otherwise (a
/// page's own script could report anything).
pub fn favicon_request_url(href: &str) -> (r: Option<String>)
    ensures
        match r {
            Some(u) => (url_scheme(href@) matches Some(s) && (s == "http"@ || s == "https"@))
                && url_serialization(href@) == Some(u@),
            None => !(url_scheme(href@) matches Some(s) && (s == "http"@ || s == "https"@))
                || url_serialization(href@) is None,
        },
{
    let scheme = match parse_url_scheme(href) {
        Ok(s) => s,
        Err(_) => {
            return None;
        },
    };
    let sc = chars_of(scheme.as_str());
    if !chars_eq_str(sc.as_slice(), "http") && !chars_eq_str(sc.as_slice(), "https") {
        return None;
    }
    match parse_url_serialization(href) {
        Ok(u) => Some(u),
        Err(_) => None,
    }
}

/// A fetched favicon is kept only when it is neither empty nor larger than
/// `MAX_FAVICON_BYTES`.
pub fn favicon_size_ok(len: usize) -> (r: bool)
    ensures
        r == (0 < len <= MAX_FAVICON_BYTES),
{
    len > 0 && len <= MAX_FAVICON_BYTES
}

/// Where a new tab's webview loads from.
pub enum WebviewTarget {
    /// A page bundled with the browser.
    AppPage(&'static str),
    /// A URL on the web, as serialized after parsing.
    External(String),
}

/// Where a tab opened on `url` loads from: the bundled home page for
/// `kite://home`, the bundled crash page for the crash marker, otherwise
/// the parsed URL (the parser's message when it does not parse).
pub fn webview_target(url: &str) -> (r: Result<WebviewTarget, String>)
    ensures
        url@ == HOME_URL@ ==> (r matches Ok(WebviewTarget::AppPage(p)) && p@ == "home.html"@),
        url@ == CRASHED_ASSET_MARKER@ ==> (r matches Ok(WebviewTarget::AppPage(p)) && p@
            == "crashed.html"@),
        url@ != HOME_URL@ && url@ != CRASHED_ASSET_MARKER@ ==> match r {
            Ok(WebviewTarget::External(u)) => url_serialization(url@) == Some(u@),
            Ok(WebviewTarget::AppPage(_)) => false,
            Err(m) => url_serialization(url@) is None && m@ == url_parse_error(url@),
        },
{
    proof {
        reveal_strlit("kite://home");
        reveal_strlit("kite-internal://crashed");
        assert(HOME_URL@ != CRASHED_ASSET_MARKER@) by {
            assert(HOME_URL@[4] != CRASHED_ASSET_MARKER@[4]);
        }
    }
    if str_eq(url, HOME_URL) {
        Ok(WebviewTarget::AppPage("home.html"))
    } else if str_eq(url, CRASHED_ASSET_MARKER) {
        Ok(WebviewTarget::AppPage("crashed.html"))
    } else {
        match parse_url_serialization(url) {
            Ok(u) => Ok(WebviewTarget::External(u)),
            Err(e) => Err(e),
        }
    }
}

/// Position of the last `.` in `s`.
pub open spec fn last_dot(s: Seq<char>) -> Option<int>
    decreases s.len(),
{
    if s.len() == 0 {
        None
    } else if s.last() == '.' {
        Some(s.len() - 1)
    } else {
        last_dot(s.drop_last())
    }
}

/// A file name split before its last `.` (stem, extension with the dot);
/// a name without one, or whose only one starts it, has no extension.
pub open spec fn split_extension(name: Seq<char>) -> (Seq<char>, Seq<char>) {
    match last_dot(name) {
        Some(i) => if i > 0 {
            (name.take(i), name.skip(i))
        } else {
            (name, Seq::empty())
        },
        None => (name, Seq::empty()),
    }
}

/// The name a download is saved under on its `attempt`-th try: the
/// suggested name first, then `stem (n).ext` for n = 1, 2, ... while that
/// file exists.
pub open spec fn download_name(name: Seq<char>, attempt: nat) -> Seq<char> {
    if attempt == 0 {
        name
    } else {
        split_extension(name).0 + " ("@ + dec_digits(attempt) + ")"@ + split_extension(name).1
    }
}

/// The name a download is saved under on try `attempt` (see
/// `download_name`).
pub fn download_file_name(file_name: &str, attempt: u64) -> (r: String)
    ensures
        r@ == download_name(file_name@, attempt as nat),
{
    if attempt == 0 {
        return file_name.to_owned();
    }
    let cs = chars_of(file_name);
    let mut k: usize = cs.len();
    assert(cs@.take(k as int) =~= cs@);
    loop
        invariant_except_break
            k <= cs@.len(),
            last_dot(cs@) == last_dot(cs@.take(k as int)),
        ensures
            k <= cs@.len(),
            last_dot(cs@) == last_dot(cs@.take(k as int)),
            k > 0 ==> cs@[k - 1] == '.',
        decreases k,
    {
        if k == 0 {
            break;
        }
        if cs[k - 1] == '.' {
            break;
        }
        assert(cs@.take(k as int - 1) =~= cs@.take(k as int).drop_last());
        k = k - 1;
    }
    let dot = if k > 0 {
        assert(cs@.take(k as int).last() == '.');
        assert(last_dot(cs@.take(k as int)) == Some(k as int - 1));
        Some(k - 1)
    } else {
        assert(cs@.take(0) =~= Seq::<char>::empty());
        None
    };
    let (stem, ext) = match dot {
        Some(i) => {
            if i > 0 {
                (slice_to_vec(cs.as_slice(), 0, i), slice_to_vec(cs.as_slice(), i, cs.len()))
            } else {
                (cs.clone(), Vec::new())
            }
        },
        None => (cs.clone(), Vec::new()),
    };
    proof {
        assert(cs@.subrange(0, cs@.len() as int) =~= cs@);
    }
    let mut r = String::new();
    push_chars(&mut r, stem.as_slice());
    push_str(&mut r, " (");
    push_decimal(&mut r, attempt);
    push_str(&mut r, ")");
    push_chars(&mut r, ext.as_slice());
    r
}

/// Start of the script handing the home page its search engine.
pub const SEARCH_ENGINE_SCRIPT_HEAD: &'static str = "window.__KITE_SEARCH_ENGINE__ = ";

/// End of that script.
pub const SEARCH_ENGINE_SCRIPT_TAIL: &'static str = "; window.dispatchEvent(new CustomEvent('kite-search-engine'));";

/// The script handing the home page the search engine (it has no other
/// way to learn it), as a JSON string literal.
pub fn search_engine_script(engine: &str) -> (r: String)
    ensures
        r@ == SEARCH_ENGINE_SCRIPT_HEAD@ + json_quoted(engine@) + SEARCH_ENGINE_SCRIPT_TAIL@,
{
    let j = json_literal(engine);
    let mut s = String::new();
    push_str(&mut s, SEARCH_ENGINE_SCRIPT_HEAD);
    push_str(&mut s, j.as_str());
    push_str(&mut s, SEARCH_ENGINE_SCRIPT_TAIL);
    assert(s@ =~= SEARCH_ENGINE_SCRIPT_HEAD@ + json_quoted(engine@) + SEARCH_ENGINE_SCRIPT_TAIL@);
    s
}

/// Start of the script handing the crash page the tab's real URL.
pub const CRASHED_URL_SCRIPT_HEAD: &'static str = "window.__KITE_CRASHED_URL__ = ";

/// The script handing the crash page the tab's real URL (for its Reload
/// button), as a JSON string literal.
pub fn crashed_url_script(url: &str) -> (r: String)
    ensures
        r@ == CRASHED_URL_SCRIPT_HEAD@ + json_quoted(url@) + ";"@,
{
    let j = json_literal(url);
    let mut s = String::new();
    push_str(&mut s, CRASHED_URL_SCRIPT_HEAD);
    push_str(&mut s, j.as_str());
    push_str(&mut s, ";");
    assert(s@ =~= CRASHED_URL_SCRIPT_HEAD@ + json_quoted(url@) + ";"@);
    s
}

} // verus!
