//! Click-the-icons CAPTCHA generation: SVG scene composition, pixel filters
//! and click verification.
use vstd::prelude::*;

pub mod attempts;
pub mod color;
pub mod error;
pub mod filter;
pub mod num;
pub mod raster;
mod random;
pub mod render;
pub mod tmpl;
pub mod verify;
pub mod webp;

pub use color::hue_norm;
pub use error::CaptchaError;
pub use render::{Captcha, Scene, SvgIcon};
pub use verify::verify;

verus! {

/// Finishes the scene and encodes its SVG document as WebP: the CAPTCHA
/// with the document, its image, and the target icons and their positions.
pub fn render(scene: Scene) -> (r: Result<Captcha, CaptchaError>)
    requires
        scene.wf(),
    ensures
        r matches Ok(c) ==> {
            &&& c.svg@ == tmpl::svg_text(scene.w as int, scene.h as int, scene.defs@, scene.body@)
            &&& webp::riff_webp(c.webp@)
            &&& c.icons@ == scene.icons@
            &&& c.positions@ == scene.positions@
        },
{
    let c = scene.finish();
    let encoded = webp::encode(c.svg.as_str());
    attach_image(c, encoded)
}

/// The finished CAPTCHA from the document `c` and the outcome `encoded` of
/// encoding its SVG: `c` with the encoded image on success, the encoder's
/// error otherwise.
pub fn attach_image(c: Captcha, encoded: Result<Vec<u8>, CaptchaError>) -> (r: Result<Captcha, CaptchaError>)
    ensures
        match encoded {
            Ok(b) => r matches Ok(d) && d.svg@ == c.svg@ && d.webp@ == b@ && d.icons@ == c.icons@
                && d.positions@ == c.positions@,
            Err(e) => r matches Err(f) && f == e,
        },
{
    match encoded {
        Ok(bytes) => Ok(Captcha { svg: c.svg, webp: bytes, icons: c.icons, positions: c.positions }),
        Err(e) => Err(e),
    }
}

} // verus!
