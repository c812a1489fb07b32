# kite

The decision-making core of Kite, a small web browser built on Tauri and
WebView2, written in Verus. The functions in `src/` carry contracts that
Verus proves, except the small trusted wrappers (marked
`#[verifier::external_body]`) around the outside crates and std calls they
use — base64, url, serde_json, aes-gcm, argon2, rand, zeroize, image, the
clock and a few string operations — whose contracts are taken on trust and
say in their doc comments what they claim of the call.

- `text`, `order`, `encoding` — string helpers over `Seq<char>`, the string
  order, base64 / URL / JSON calls and number formatting.
- `hostset`, `blocklist` — the content-blocking host set, the two list
  formats it is read from, the written list format, parent-domain
  matching and the per-site allowlist.
- `urls` — what typed text navigates to, custom homepages, internal
  `kite://` pages, favicons, image names, `data:` URIs, download names and
  the scripts handed to bundled pages.
- `persist` — history, bookmarks, downloads, settings, the saved session and
  the blocklist refresh record.
- `tabs` — the tab strip: opening, switching, closing and reopening tabs,
  navigation events, the library panel, zoom steps, request blocking.
- `vault`, `logins` — the password vault (Argon2id key, AES-256-GCM
  entries) and saved logins: listing, saving, filling, and what to do with
  a page's login form.
- `menu`, `shortcuts`, `images`, `system` — the page context menu, global
  shortcuts, clipboard images, the clock and the foreground check.
- `laws` — properties that span several operations.

`app/` is the Tauri application around the library: windows, webviews,
files, network and clipboard. `tests/` runs the library on concrete values.
