use kite::encoding::json_literal;
use kite::urls::{
    build_favicon_data_url, data_uri_image, crashed_url_script, download_file_name, extension_for_content_type, favicon_request_url,
    favicon_size_ok, guess_favicon_mime, normalize_homepage_url, normalize_url,
    search_engine_script, search_url_for, urlencode, webview_target, WebviewTarget,
};

#[test]
fn urlencode_writes_spaces_alphanumerics_and_escapes() {
    assert_eq!(urlencode("rust lang"), "rust+lang");
    assert_eq!(urlencode("a&b=c"), "a%26b%3Dc");
    assert_eq!(urlencode("caf\u{e9}"), "caf\u{e9}");
    assert_eq!(urlencode("\u{2603}"), "%2603");
    assert_eq!(urlencode("\t"), "%09");
    assert_eq!(urlencode(""), "");
}

#[test]
fn search_url_for_each_engine() {
    assert_eq!(search_url_for("google", "a b"), "https://www.google.com/search?q=a+b");
    assert_eq!(search_url_for("bing", "a b"), "https://www.bing.com/search?q=a+b");
    assert_eq!(search_url_for("duckduckgo", "a b"), "https://duckduckgo.com/?q=a+b");
    assert_eq!(search_url_for("altavista", "x"), "https://www.google.com/search?q=x");
}

#[test]
fn normalize_url_keeps_urls_adds_scheme_or_searches() {
    assert_eq!(normalize_url("  https://example.com/a  ", "google"), "https://example.com/a");
    assert_eq!(normalize_url("http://x", "bing"), "http://x");
    assert_eq!(normalize_url("example.com", "google"), "https://example.com");
    assert_eq!(normalize_url("rust lang", "duckduckgo"), "https://duckduckgo.com/?q=rust+lang");
    assert_eq!(normalize_url("example.com foo", "google"), "https://www.google.com/search?q=example%2Ecom+foo");
}

#[test]
fn normalize_homepage_url_refuses_non_urls() {
    assert_eq!(normalize_homepage_url(" example.org "), Ok("https://example.org".to_string()));
    assert_eq!(normalize_homepage_url("https://a.b/c"), Ok("https://a.b/c".to_string()));
    assert_eq!(normalize_homepage_url("   "), Err("enter a URL for the custom homepage".to_string()));
    assert_eq!(normalize_homepage_url("news"), Err("'news' doesn't look like a valid URL".to_string()));
}

#[test]
fn extension_for_content_type_known_types() {
    assert_eq!(extension_for_content_type("image/png"), Some("png"));
    assert_eq!(extension_for_content_type("image/jpeg; charset=binary"), Some("jpg"));
    assert_eq!(extension_for_content_type(" image/jpg "), Some("jpg"));
    assert_eq!(extension_for_content_type("image/webp"), Some("webp"));
    assert_eq!(extension_for_content_type("text/html"), None);
}

#[test]
fn guess_favicon_mime_by_extension() {
    assert_eq!(guess_favicon_mime("https://a.b/ICON.PNG"), "image/png");
    assert_eq!(guess_favicon_mime("https://a.b/favicon.ico"), "image/x-icon");
    assert_eq!(guess_favicon_mime("https://a.b/logo.svg"), "image/svg+xml");
    assert_eq!(guess_favicon_mime("https://a.b/icon"), "image/x-icon");
}

#[test]
fn download_file_name_numbers_retries() {
    assert_eq!(download_file_name("report.pdf", 0), "report.pdf");
    assert_eq!(download_file_name("report.pdf", 2), "report (2).pdf");
    assert_eq!(download_file_name("archive.tar.gz", 1), "archive.tar (1).gz");
    assert_eq!(download_file_name(".bashrc", 1), ".bashrc (1)");
    assert_eq!(download_file_name("README", 12), "README (12)");
}

#[test]
fn webview_target_bundled_pages_and_urls() {
    assert!(matches!(webview_target("kite://home"), Ok(WebviewTarget::AppPage("home.html"))));
    assert!(matches!(webview_target("kite-internal://crashed"), Ok(WebviewTarget::AppPage("crashed.html"))));
    match webview_target("https://Example.com") {
        Ok(WebviewTarget::External(u)) => assert_eq!(u, "https://example.com/"),
        _ => panic!("expected an external URL"),
    }
    assert!(webview_target("not a url").is_err());
}

#[test]
fn favicon_request_url_only_web_schemes() {
    assert_eq!(favicon_request_url("https://a.b/f.ico"), Some("https://a.b/f.ico".to_string()));
    assert_eq!(favicon_request_url("HTTP://A.B"), Some("http://a.b/".to_string()));
    assert_eq!(favicon_request_url("file:///etc/passwd"), None);
    assert_eq!(favicon_request_url("garbage"), None);
    assert!(favicon_size_ok(1));
    assert!(favicon_size_ok(524_288));
    assert!(!favicon_size_ok(0));
    assert!(!favicon_size_ok(524_289));
}

#[test]
fn json_literal_escapes_like_serde_json() {
    assert_eq!(json_literal("plain"), "\"plain\"");
    assert_eq!(json_literal("a\"b\\c\nd\te\u{1}"), "\"a\\\"b\\\\c\\nd\\te\\u0001\"");
    assert_eq!(json_literal("\u{8}\u{c}\r/\u{7f}"), "\"\\b\\f\\r/\u{7f}\"");
}

#[test]
fn page_scripts_embed_json() {
    assert_eq!(
        search_engine_script("bing"),
        "window.__KITE_SEARCH_ENGINE__ = \"bing\"; window.dispatchEvent(new CustomEvent('kite-search-engine'));"
    );
    assert_eq!(crashed_url_script("https://a.b/\"x\""), "window.__KITE_CRASHED_URL__ = \"https://a.b/\\\"x\\\"\";");
}

#[test]
fn clipboard_image_decodes_to_rgba() {
    let px = vec![255u8, 0, 0, 255, 0, 0, 255, 128];
    let img = image::RgbaImage::from_raw(2, 1, px.clone()).unwrap();
    let mut png: Vec<u8> = Vec::new();
    img.write_to(&mut std::io::Cursor::new(&mut png), image::ImageFormat::Png).unwrap();
    let out = kite::images::rgba_for_clipboard(&png).unwrap();
    assert_eq!((out.width, out.height), (2, 1));
    assert_eq!(out.rgba, px);
    assert!(kite::images::rgba_for_clipboard(b"not an image").is_err());
}

#[test]
fn urlencode_of_ascii_uses_a_small_alphabet() {
    let s = urlencode("a b&c=D/é?~9");
    assert_eq!(s, "a+b%26c%3DD%2F\u{e9}%3F%7E9");
    let ascii = urlencode("Hello, World! 100% #1");
    assert!(ascii.chars().all(|c| c == '+' || c == '%' || c.is_ascii_alphanumeric()));
}

#[test]
fn normalize_url_is_idempotent() {
    for input in ["  example.com ", "rust lang", "https://a.b/c", "", "  x "] {
        for engine in ["google", "bing", "duckduckgo"] {
            let once = normalize_url(input, engine);
            assert_eq!(normalize_url(&once, engine), once);
        }
    }
}

#[test]
fn favicon_data_url_reads_back() {
    let bytes = vec![0u8, 1, 2, 250, 255];
    let url = build_favicon_data_url(&bytes, Some("image/png; charset=x"), "https://a.b/favicon.ico");
    assert_eq!(url, "data:image/png;base64,AAEC+v8=");
    assert_eq!(data_uri_image(&url), Some(Ok((bytes.clone(), Some("image/png".to_string())))));
    let guessed = build_favicon_data_url(&bytes, None, "https://a.b/icon.SVG");
    assert_eq!(data_uri_image(&guessed), Some(Ok((bytes, Some("image/svg+xml".to_string())))));
}

#[test]
fn parser_messages_are_passed_on() {
    assert_eq!(webview_target("not a url").err(), Some("relative URL without a base".to_string()));
    assert_eq!(
        data_uri_image("data:image/png;base64,!!!!"),
        Some(Err("Invalid symbol 33, offset 0.".to_string()))
    );
}
