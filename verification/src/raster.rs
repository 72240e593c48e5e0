//! Rasterising the SVG document and running the pixel filters on it.
use vstd::prelude::*;
use crate::error::CaptchaError;
use crate::filter::{apply_all, chain_outcome, chain_size_ok};

verus! {

/// Parses `svg` with `usvg::Tree::from_data` (default options), makes a
/// `tiny_skia::Pixmap` of the document's size cut to whole pixels, fills
/// it white and draws the document onto it with `resvg::render`; a parse
/// error and a refused canvas come back as the library's errors. Claimed:
/// a success is `(w, h, bytes)` with both sides at least one pixel and four
/// bytes per pixel (`Pixmap::new` refuses a zero side and sizes its buffer
/// `w * h * 4`). Not claimed: which documents fail, and the pixels.
#[verifier::external_body]
fn rasterize(svg: &str) -> (r: Result<(u32, u32, Vec<u8>), CaptchaError>)
    ensures
        r matches Ok((w, h, d)) ==> w >= 1 && h >= 1 && d@.len() == 4 * w * h,
{
    let tree = match usvg::Tree::from_data(svg.as_bytes(), &usvg::Options::default()) {
        Ok(t) => t,
        Err(e) => return Err(CaptchaError::Usvg(e)),
    };
    let (w, h) = (tree.size().width() as u32, tree.size().height() as u32);
    let mut pixmap = match tiny_skia::Pixmap::new(w, h) {
        Some(p) => p,
        None => return Err(CaptchaError::PixmapNew),
    };
    pixmap.fill(tiny_skia::Color::WHITE);
    resvg::render(&tree, usvg::Transform::default(), &mut pixmap.as_mut());
    Ok((w, h, pixmap.take()))
}

/// Runs the filter chain on the `w`×`h` RGBA pixels `data` when the chain
/// handles that size; refuses any other size with `CaptchaError::Canvas`.
pub fn filter_pixels(w: u32, h: u32, data: Vec<u8>) -> (r: Result<(u32, u32, Vec<u8>), CaptchaError>)
    requires
        data@.len() == 4 * w * h,
    ensures
        chain_size_ok(w as int, h as int) ==> (r matches Ok((w2, h2, d)) && w2 == w && h2 == h
            && d@.len() == data@.len() && chain_outcome(data@, d@, w as int, h as int)),
        !chain_size_ok(w as int, h as int) ==> (r matches Err(e) && e is Canvas),
{
    let wu = w as usize;
    let hu = h as usize;
    let ok = if wu >= 2 && hu >= 1 && wu <= 20000 && hu <= 20000 {
        assert((wu / 2) * (wu / 2) <= 100000000 && (hu / 2) * (hu / 2) <= 100000000) by (nonlinear_arith)
            requires
                wu <= 20000,
                hu <= 20000,
        ;
        (wu / 2) * (wu / 2) + (hu / 2) * (hu / 2) <= 30678337
    } else {
        false
    };
    if !ok {
        proof {
            if chain_size_ok(w as int, h as int) {
                assert(w / 2 <= 5539 && h / 2 <= 5539) by (nonlinear_arith)
                    requires
                        (w / 2) * (w / 2) + (h / 2) * (h / 2) <= 30678337,
                ;
            }
        }
        return Err(CaptchaError::Canvas);
    }
    let mut pixels = data;
    assert(wu * hu * 4 == 4 * w * h) by (nonlinear_arith)
        requires
            wu == w,
            hu == h,
    ;
    apply_all(pixels.as_mut_slice(), wu, hu);
    Ok((w, h, pixels))
}

/// Renders the SVG document `svg` to pixels and runs the filter chain on
/// them: on success the size and the filtered RGBA bytes of some rendering
/// of the document.
pub fn svg_to_pixmap(svg: &str) -> (r: Result<(u32, u32, Vec<u8>), CaptchaError>)
    ensures
        r matches Ok((w, h, d)) ==> d@.len() == 4 * w * h && chain_size_ok(w as int, h as int)
            && exists|raw: Seq<u8>| raw.len() == 4 * w * h && #[trigger] chain_outcome(raw, d@, w as int, h as int),
{
    match rasterize(svg) {
        Ok((w, h, data)) => {
            let ghost raw = data@;
            let r = filter_pixels(w, h, data);
            proof {
                if r is Ok {
                    assert(chain_outcome(raw, r->Ok_0.2@, w as int, h as int));
                }
            }
            r
        },
        Err(e) => Err(e),
    }
}

} // verus!
