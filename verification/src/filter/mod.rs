//! In-place filters on RGBA images (four bytes per pixel, rows top to
//! bottom) that make the rendered CAPTCHA harder for machines to read.
use vstd::prelude::*;

pub mod cinematic;
pub mod grain;
pub mod warp;
pub mod metaballs;
pub mod oil_painting;
pub mod ribbon;
pub mod watercolor;

use crate::random::rng_new;

verus! {

/// `new` has the length of `old` and keeps every alpha byte of it.
pub open spec fn alpha_kept(old: Seq<u8>, new: Seq<u8>) -> bool {
    &&& new.len() == old.len()
    &&& forall|k: int| 0 <= k < old.len() && k % 4 == 3 ==> #[trigger] new[k] == old[k]
}

/// `new` has the length of `old` and keeps every byte from index `n` on
/// (the bytes past the image).
pub open spec fn tail_kept(old: Seq<u8>, new: Seq<u8>, n: int) -> bool {
    &&& new.len() == old.len()
    &&& forall|k: int| n <= k < old.len() ==> #[trigger] new[k] == old[k]
}

/// Every pixel of the RGBA image `d` is fully opaque.
pub open spec fn opaque(d: Seq<u8>) -> bool {
    forall|k: int| 0 <= k < d.len() && k % 4 == 3 ==> #[trigger] d[k] == 255
}


/// Byte `(y * w + x) * 4 + c` is channel `c` of pixel `(x, y)`.
pub proof fn lemma_pixel_index(w: int, x: int, y: int, c: int)
    requires
        0 <= x < w,
        0 <= y,
        0 <= c < 4,
    ensures
        ((y * w + x) * 4 + c) / 4 == y * w + x,
        ((y * w + x) * 4 + c) % 4 == c,
        (y * w + x) % w == x,
        (y * w + x) / w == y,
{
    vstd::arithmetic::div_mod::lemma_fundamental_div_mod_converse((y * w + x) * 4 + c, 4, y * w + x, c);
    vstd::arithmetic::div_mod::lemma_fundamental_div_mod_converse(y * w + x, w, y, x);
}

/// The canvas sizes the whole filter chain accepts: at least two pixels
/// wide (a one-pixel row cannot be shifted by two pixels), at least one
/// high, and the vignette's bound on the half-diagonal (which keeps every
/// side below 11080, within the other filters' bounds).
pub open spec fn chain_size_ok(w: int, h: int) -> bool {
    &&& 2 <= w
    &&& 1 <= h
    &&& cinematic::size_ok(w, h)
}

/// `new` is `old` after the filter chain: some outcome of each filter in
/// turn (oil strokes, vignette, warp, ribbons, splashes, grain).
pub open spec fn chain_outcome(old: Seq<u8>, new: Seq<u8>, w: int, h: int) -> bool {
    exists|d1: Seq<u8>, d2: Seq<u8>, d3: Seq<u8>, d4: Seq<u8>, d5: Seq<u8>|
        #[trigger] oil_painting::outcome(old, d1, w, h)
            && #[trigger] cinematic::outcome(d1, d2, w, h)
            && #[trigger] warp::outcome(d2, d3, w)
            && #[trigger] ribbon::outcome(d3, d4, w, h, ribbon::sine_table())
            && #[trigger] metaballs::outcome(d4, d5, w, h)
            && #[trigger] grain::outcome(d5, new, w * h * 4)
}

/// Runs the whole filter chain in place on the `w`×`h` RGBA image `data`
/// with a fresh generator: oil strokes and the vignette as base texture,
/// the wave warp, then the ribbons (refracting the warped picture) and
/// the splashes, and the grain last so that it is not distorted.
pub fn apply_all(data: &mut [u8], w: usize, h: usize)
    requires
        old(data)@.len() == w * h * 4,
        chain_size_ok(w as int, h as int),
    ensures
        chain_outcome(old(data)@, final(data)@, w as int, h as int),
        final(data)@.len() == old(data)@.len(),
        opaque(old(data)@) ==> opaque(final(data)@),
{
    let ghost d0 = data@;
    assert(w / 2 <= 5539 && h / 2 <= 5539) by (nonlinear_arith)
        requires
            (w / 2) * (w / 2) + (h / 2) * (h / 2) <= 30678337,
    ;
    let lut = ribbon::ribbon_lut();
    let mut rng = rng_new();
    oil_painting::apply(data, w, h, &mut rng);
    let ghost d1 = data@;
    cinematic::apply(data, w, h, &mut rng);
    let ghost d2 = data@;
    warp::apply(data, w, h, &mut rng);
    let ghost d3 = data@;
    ribbon::apply(data, w, h, &mut rng, lut.as_slice());
    let ghost d4 = data@;
    let len = data.len();
    assert(len == w * h * 4);
    metaballs::apply(data, w, h, &mut rng);
    let ghost d5 = data@;
    grain::apply(data, w, h, &mut rng);
    proof {
        if opaque(d0) {
            assert(opaque(d1));
            assert(opaque(d2));
            assert(opaque(d3));
            assert(opaque(d4));
            assert(opaque(d5));
            assert(opaque(data@));
        }
        assert(oil_painting::outcome(d0, d1, w as int, h as int));
        assert(cinematic::outcome(d1, d2, w as int, h as int));
        assert(warp::outcome(d2, d3, w as int));
        assert(ribbon::outcome(d3, d4, w as int, h as int, ribbon::sine_table()));
        assert(metaballs::outcome(d4, d5, w as int, h as int));
        assert(grain::outcome(d5, data@, w * h * 4));
    }
}

} // verus!
