//! Decoding a fetched image for the clipboard.
use vstd::prelude::*;

verus! {

#[verifier::external_type_specification]
#[verifier::external_body]
pub struct ExImageError(image::ImageError);

/// The width, height and RGBA8 pixels `image::load_from_memory` (format
/// guessed from the bytes), converted with `to_rgba8`, gives for the bytes;
/// `None` when they do not decode.
pub uninterp spec fn rgba_decoded(bytes: Seq<u8>) -> Option<(u32, u32, Seq<u8>)>;

/// `image::load_from_memory`, then `to_rgba8`, `dimensions` and `into_raw`.
#[verifier::external_body]
fn load_rgba(bytes: &[u8]) -> (r: Result<(u32, u32, Vec<u8>), image::ImageError>)
    ensures
        match r {
            Ok((w, h, px)) => rgba_decoded(bytes@) == Some((w, h, px@)),
            Err(_) => rgba_decoded(bytes@) is None,
        },
{
    match image::load_from_memory(bytes) {
        Ok(img) => {
            let rgba = img.to_rgba8();
            let (w, h) = rgba.dimensions();
            Ok((w, h, rgba.into_raw()))
        },
        Err(e) => Err(e),
    }
}

/// An image as the clipboard takes it: RGBA8 pixels, row by row.
pub struct RgbaImage {
    pub width: u32,
    pub height: u32,
    pub rgba: Vec<u8>,
}

/// Decodes fetched image bytes for the clipboard; the error is the
/// decoder's message.
pub fn rgba_for_clipboard(bytes: &[u8]) -> (r: Result<RgbaImage, String>)
    ensures
        match r {
            Ok(img) => rgba_decoded(bytes@) == Some((img.width, img.height, img.rgba@)),
            Err(_) => rgba_decoded(bytes@) is None,
        },
{
    match load_rgba(bytes) {
        Ok((width, height, rgba)) => Ok(RgbaImage { width, height, rgba }),
        Err(e) => Err(e.to_string()),
    }
}

} // verus!
