//! Cinematic lighting: a soft vignette that darkens towards the borders,
//! and a coloured light leak from one corner.
use vstd::prelude::*;
use crate::filter::{alpha_kept, tail_kept};
use crate::filter::lemma_pixel_index;
use crate::random::{rng_i32, rng_u8};

verus! {

/// The canvas sizes this filter accepts: the squared distance of a corner
/// pixel from the centre, times 70, stays within `i32` (beyond it the
/// vignette's `i32` product overflows).
pub open spec fn size_ok(w: int, h: int) -> bool {
    (w / 2) * (w / 2) + (h / 2) * (h / 2) <= 30678337
}

/// `v` clamped to `0..=255`.
pub open spec fn clamp_u8(v: int) -> u8 {
    if v < 0 {
        0
    } else if v > 255 {
        255
    } else {
        v as u8
    }
}

/// The darkening at pixel `(x, y)`: 70 times its squared distance from the
/// centre over the squared half-diagonal (plus one), rounded down.
pub open spec fn vignette(w: int, h: int, x: int, y: int) -> int {
    let cx = w / 2;
    let cy = h / 2;
    ((x - cx) * (x - cx) + (y - cy) * (y - cy)) * 70 / (cx * cx + cy * cy + 1)
}

/// The strength (0..=256) of the light leak at pixel `(x, y)`: falls off
/// linearly with the Manhattan distance from the leak's corner (left for
/// an even `corner`, top for `corner < 2`), reaching 0 at half of `w + h`.
pub open spec fn leak_ratio(w: int, h: int, corner: int, x: int, y: int) -> int {
    let x_dist = if corner % 2 == 0 { x } else { w - 1 - x };
    let y_dist = if corner < 2 { y } else { h - 1 - y };
    let d = x_dist + y_dist;
    let m = (w + h) / 2;
    if d < m { (m - d) * 256 / m } else { 0 }
}

/// The byte at index `k` of the shaded image: colour channels darkened by
/// the vignette and brightened by `leak[c]` scaled by the leak ratio,
/// clamped; alpha kept.
pub open spec fn shaded_byte(old: Seq<u8>, w: int, h: int, corner: int, leak: Seq<i32>, k: int) -> u8 {
    let p = k / 4;
    let c = k % 4;
    let x = p % w;
    let y = p / w;
    if c == 3 {
        old[k]
    } else {
        clamp_u8(old[k] - vignette(w, h, x, y) + leak[c] * leak_ratio(w, h, corner, x, y) / 256)
    }
}

/// The whole shaded image.
/// Bytes past the `w`×`h` pixels are kept.
pub open spec fn shaded(old: Seq<u8>, w: int, h: int, corner: int, leak: Seq<i32>) -> Seq<u8> {
    Seq::new(old.len(), |k: int| if k < w * h * 4 { shaded_byte(old, w, h, corner, leak, k) } else { old[k] })
}

/// Applies the vignette and the light leak from `corner` with colour
/// `leak` (red, green, blue) to the `w`×`h` RGBA image at the start of
/// `data`.
pub fn shade(data: &mut [u8], w: usize, h: usize, corner: u8, leak: [i32; 3])
    requires
        old(data)@.len() >= w * h * 4,
        size_ok(w as int, h as int),
        corner < 4,
        forall|c: int| 0 <= c < 3 ==> 0 <= #[trigger] leak@[c] <= 255,
    ensures
        final(data)@ == shaded(old(data)@, w as int, h as int, corner as int, leak@),
{
    let ghost orig = data@;
    assert(w / 2 <= 5539 && h / 2 <= 5539) by (nonlinear_arith)
        requires
            (w / 2) * (w / 2) + (h / 2) * (h / 2) <= 30678337,
    ;
    let len = data.len();
    assert(w * h <= w * h * 4) by (nonlinear_arith);
    let ghost total = len as int;
    let cx = (w / 2) as i32;
    let cy = (h / 2) as i32;
    assert(0 <= cx * cx <= 30678337 && 0 <= cy * cy <= 30678337) by (nonlinear_arith)
        requires
            cx == w / 2,
            cy == h / 2,
            (w / 2) * (w / 2) + (h / 2) * (h / 2) <= 30678337,
    ;
    let max_dist_sq = cx * cx + cy * cy + 1;
    let n = w * h;
    let mut p: usize = 0;
    while p < n
        invariant
            n == w * h,
            data@.len() == total,
            orig.len() == total,
            w * h * 4 <= total,
            total == len,
            p <= n,
            size_ok(w as int, h as int),
            w <= 11079,
            h <= 11079,
            corner < 4,
            forall|c: int| 0 <= c < 3 ==> 0 <= #[trigger] leak@[c] <= 255,
            cx == w / 2,
            cy == h / 2,
            max_dist_sq == cx * cx + cy * cy + 1,
            0 <= cx * cx + cy * cy <= 30678337,
            forall|k: int| 0 <= k < p * 4 ==> data@[k] == #[trigger] shaded_byte(orig, w as int, h as int, corner as int, leak@, k),
            forall|k: int| p * 4 <= k < data@.len() ==> #[trigger] data@[k] == orig[k],
        decreases n - p,
    {
        let x = p % w;
        let y = p / w;
        assert(x < w && y < h) by (nonlinear_arith)
            requires
                p < w * h,
                x == p % w,
                y == p / w,
        ;
        let dx = x as i32 - cx;
        let dy = y as i32 - cy;
        assert(0 <= dx * dx <= cx * cx && 0 <= dy * dy <= cy * cy) by (nonlinear_arith)
            requires
                -cx <= dx <= cx,
                -cy <= dy <= cy,
        ;
        let dist_sq = dx * dx + dy * dy;
        let vig = dist_sq * 70 / max_dist_sq;
        let x_dist: i32 = if corner % 2 == 0 { x as i32 } else { w as i32 - 1 - x as i32 };
        let y_dist: i32 = if corner < 2 { y as i32 } else { h as i32 - 1 - y as i32 };
        let leak_dist = x_dist + y_dist;
        let max_leak_dist = ((w + h) / 2) as i32;
        let ratio: i32 = if leak_dist < max_leak_dist {
            (max_leak_dist - leak_dist) * 256 / max_leak_dist
        } else {
            0
        };
        assert(0 <= ratio <= 256) by (nonlinear_arith)
            requires
                0 <= leak_dist,
                leak_dist < max_leak_dist ==> ratio == (max_leak_dist - leak_dist) * 256 / (max_leak_dist as int),
                leak_dist >= max_leak_dist ==> ratio == 0,
        ;
        assert(0 <= vig <= 70) by (nonlinear_arith)
            requires
                0 <= dist_sq < max_dist_sq,
                vig == dist_sq * 70 / (max_dist_sq as int),
        ;
        assert(p * 4 < w * h * 4) by (nonlinear_arith)
            requires
                p < w * h,
        ;
        let base = p * 4;
        let mut c: usize = 0;
        while c < 3
            invariant
                c <= 3,
                base == p * 4,
                0 <= vig <= 70,
                0 <= ratio <= 256,
                x == p % w,
                y == p / w,
                vig == vignette(w as int, h as int, x as int, y as int),
                ratio == leak_ratio(w as int, h as int, corner as int, x as int, y as int),
                forall|c: int| 0 <= c < 3 ==> 0 <= #[trigger] leak@[c] <= 255,
                p < n,
                n == w * h,
                data@.len() == total,
                orig.len() == total,
                w * h * 4 <= total,
                forall|k: int| 0 <= k < p * 4 ==> data@[k] == #[trigger] shaded_byte(orig, w as int, h as int, corner as int, leak@, k),
                forall|k: int| p * 4 <= k < p * 4 + c ==> data@[k] == #[trigger] shaded_byte(orig, w as int, h as int, corner as int, leak@, k),
                forall|k: int| p * 4 + c <= k < data@.len() ==> #[trigger] data@[k] == orig[k],
            decreases 3 - c,
        {
            let k = base + c;
            assert(0 <= leak[c as int] * ratio <= 255 * 256) by (nonlinear_arith)
                requires
                    0 <= leak[c as int] <= 255,
                    0 <= ratio <= 256,
            ;
            let v = data[k] as i32 - vig + leak[c] * ratio / 256;
            data[k] = if v < 0 { 0 } else if v > 255 { 255 } else { v as u8 };
            c = c + 1;
        }
        p = p + 1;
    }
    assert(data@ =~= shaded(orig, w as int, h as int, corner as int, leak@));
}

/// The leak colours `apply` draws from: reds and blues 30..90, greens
/// 0..40.
pub open spec fn leak_ok(leak: Seq<i32>) -> bool {
    &&& leak.len() == 3
    &&& 30 <= leak[0] < 90
    &&& 0 <= leak[1] < 40
    &&& 30 <= leak[2] < 90
}

/// `new` is `old` under the vignette and some light leak `apply` can draw.
pub open spec fn outcome(old: Seq<u8>, new: Seq<u8>, w: int, h: int) -> bool {
    exists|corner: int, leak: Seq<i32>| 0 <= corner < 4 && leak_ok(leak) && new == #[trigger] shaded(old, w, h, corner, leak)
}

/// Cinematic lighting and vignette: a random leak corner and a warm or
/// psychedelic leak colour, applied by `shade`.
pub fn apply(data: &mut [u8], w: usize, h: usize, rng: &mut fastrand::Rng)
    requires
        old(data)@.len() >= w * h * 4,
        size_ok(w as int, h as int),
    ensures
        outcome(old(data)@, final(data)@, w as int, h as int),
        alpha_kept(old(data)@, final(data)@),
        tail_kept(old(data)@, final(data)@, w * h * 4),
{
    let leak_corner = rng_u8(rng, 0, 3);
    let leak_r = rng_i32(rng, 30, 89);
    let leak_g = rng_i32(rng, 0, 39);
    let leak_b = rng_i32(rng, 30, 89);
    let leak = [leak_r, leak_g, leak_b];
    let ghost orig = data@;
    shade(data, w, h, leak_corner, leak);
    assert(leak_ok(leak@));
    proof {
        lemma_shading_keeps_alpha(orig, w as int, h as int, leak_corner as int, leak@);
        assert(tail_kept(orig, data@, w * h * 4));
    }
}

/// The vignette and the light leak never touch the alpha channel.
pub proof fn lemma_shading_keeps_alpha(old: Seq<u8>, w: int, h: int, corner: int, leak: Seq<i32>)
    ensures
        alpha_kept(old, shaded(old, w, h, corner, leak)),
{
}

/// The light leak comes from the corner `corner` names (0: top-left,
/// 1: top-right, 2: bottom-left, 3: bottom-right): the corner pixel itself
/// gets the whole leak colour on top of the vignette, and a pixel whose
/// Manhattan distance from that corner is at least half of `w + h` gets
/// none.
pub proof fn lemma_leak_from_corner(old: Seq<u8>, w: int, h: int, corner: int, leak: Seq<i32>, x: int, y: int, c: int)
    requires
        1 <= w,
        1 <= h,
        old.len() >= w * h * 4,
        0 <= corner < 4,
        0 <= x < w,
        0 <= y < h,
        0 <= c < 3,
    ensures
        ({
            let new = shaded(old, w, h, corner, leak);
            let k = (y * w + x) * 4 + c;
            let cx = if corner % 2 == 1 { w - 1 } else { 0 };
            let cy = if corner >= 2 { h - 1 } else { 0 };
            let dist = (if x >= cx { x - cx } else { cx - x }) + (if y >= cy { y - cy } else { cy - y });
            let dark = old[k] - vignette(w, h, x, y);
            &&& (x == cx && y == cy) ==> new[k] == clamp_u8(dark + leak[c])
            &&& dist >= (w + h) / 2 ==> new[k] == clamp_u8(dark)
        }),
{
    lemma_pixel_index(w, x, y, c);
    let k = (y * w + x) * 4 + c;
    assert(k < w * h * 4) by (nonlinear_arith)
        requires
            0 <= x < w,
            0 <= y < h,
            0 <= c < 3,
            k == (y * w + x) * 4 + c,
    ;
    let m = (w + h) / 2;
    assert(m >= 1);
    assert(m * 256 / m == 256) by (nonlinear_arith)
        requires
            m >= 1,
    ;
    assert(leak[c] * 256 / 256 == leak[c]);
}

} // verus!
