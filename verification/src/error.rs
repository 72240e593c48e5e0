//! The errors of turning a scene into an image.
use vstd::prelude::*;

verus! {

/// `usvg::Error`, the parser's error, carried through unchanged.
#[verifier::external_type_specification]
#[verifier::external_body]
pub struct ExUsvgError(usvg::Error);

/// Why a CAPTCHA image could not be produced.
#[derive(Debug)]
pub enum CaptchaError {
    /// The canvas could not be allocated (its size is zero or too large).
    PixmapNew,
    /// The SVG document could not be parsed.
    Usvg(usvg::Error),
    /// The WebP encoder failed.
    Encode,
    /// The canvas is outside the sizes the pixel filters handle.
    Canvas,
}

} // verus!
