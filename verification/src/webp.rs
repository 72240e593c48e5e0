//! Encoding the finished SVG document as a WebP image.
use vstd::prelude::*;
use crate::error::CaptchaError;

verus! {

/// The WebP quality the CAPTCHA image is encoded at (0..=100).
pub const WEBP_QUALITY: u8 = 75;

/// `b` starts with the RIFF container header of a WebP file: the bytes
/// `RIFF`, a four-byte size, then `WEBP`.
pub open spec fn riff_webp(b: Seq<u8>) -> bool {
    &&& b.len() >= 12
    &&& b[0] == 0x52u8 && b[1] == 0x49u8 && b[2] == 0x46u8 && b[3] == 0x46u8
    &&& b[8] == 0x57u8 && b[9] == 0x45u8 && b[10] == 0x42u8 && b[11] == 0x50u8
}

/// `svg2webp::svg2webp(svg, quality)`: parses `svg` with usvg, renders it
/// with resvg on a white canvas of the document's size and encodes the
/// pixels with zenwebp's lossy encoder at `quality`; its three errors are
/// passed on as the library's. Claimed: a success starts with the WebP
/// RIFF header, which zenwebp writes before anything else. Not claimed:
/// which documents fail, and the image bytes, which depend on the
/// encoder's code path on the machine.
#[verifier::external_body]
fn svg_to_webp(svg: &str, quality: u8) -> (r: Result<Vec<u8>, CaptchaError>)
    ensures
        r matches Ok(b) ==> riff_webp(b@),
{
    match svg2webp::svg2webp(svg, quality) {
        Ok(b) => Ok(b.into_vec()),
        Err(svg2webp::Error::PixmapNew) => Err(CaptchaError::PixmapNew),
        Err(svg2webp::Error::Usvg(e)) => Err(CaptchaError::Usvg(e)),
        Err(svg2webp::Error::Encode) => Err(CaptchaError::Encode),
    }
}

/// Encodes the SVG document `svg` as a WebP image at `WEBP_QUALITY`.
pub fn encode(svg: &str) -> (r: Result<Vec<u8>, CaptchaError>)
    ensures
        r matches Ok(b) ==> riff_webp(b@),
{
    svg_to_webp(svg, WEBP_QUALITY)
}

} // verus!
