//! Film and paper grain: fine random noise, with occasional coarse
//! specks and a slight colour drift between the red and green channels.
use vstd::prelude::*;
use crate::filter::{alpha_kept, tail_kept};
use crate::filter::cinematic::clamp_u8;
use crate::random::{rng_i8, rng_u8, rng_usize};

verus! {

/// Size of the noise tables.
pub const LUT_SIZE: usize = 4096;

/// `v` clamped to the range of `i8` (saturating `i8` arithmetic).
pub open spec fn clamp_i8(v: int) -> int {
    if v < -128 {
        -128
    } else if v > 127 {
        127
    } else {
        v
    }
}

/// The byte at index `k` of the grained image: pixel `p` takes table entry
/// `(start + p) % 4096`; red is shifted by `grain + color`, green by
/// `grain - color`, blue by `grain` (each sum saturating in `i8`, each
/// channel saturating in `0..=255`); alpha is kept.
pub open spec fn grained_byte(old: Seq<u8>, grain: Seq<i8>, color: Seq<i8>, start: int, k: int) -> u8 {
    let p = k / 4;
    let ch = k % 4;
    let li = (start + p) % (LUT_SIZE as int);
    let base = grain[li] as int;
    let col = color[li] as int;
    if ch == 0 {
        clamp_u8(old[k] + clamp_i8(base + col))
    } else if ch == 1 {
        clamp_u8(old[k] + clamp_i8(base - col))
    } else if ch == 2 {
        clamp_u8(old[k] + base)
    } else {
        old[k]
    }
}

/// The image with its first `n` bytes (the `w`×`h` pixels) grained; any
/// bytes past them are kept.
pub open spec fn grained(old: Seq<u8>, grain: Seq<i8>, color: Seq<i8>, start: int, n: int) -> Seq<u8> {
    Seq::new(old.len(), |k: int| if k < n { grained_byte(old, grain, color, start, k) } else { old[k] })
}

/// Adds the noise of the tables `grain` and `color`, read cyclically from
/// entry `start`, to the `w`×`h` RGBA image at the start of `data`.
pub fn grain_with(data: &mut [u8], w: usize, h: usize, grain: &[i8], color: &[i8], start: usize)
    requires
        old(data)@.len() >= w * h * 4,
        grain@.len() == LUT_SIZE,
        color@.len() == LUT_SIZE,
        start < LUT_SIZE,
    ensures
        final(data)@ == grained(old(data)@, grain@, color@, start as int, w * h * 4),
{
    let ghost orig = data@;
    let total = data.len();
    assert(w * h <= w * h * 4 <= total) by (nonlinear_arith)
        requires
            w * h * 4 <= total,
    ;
    let len = w * h * 4;
    let mut idx: usize = 0;
    let mut lut_idx: usize = start;
    while idx < len
        invariant
            total == data@.len(),
            total == orig.len(),
            len == w * h * 4,
            len <= total,
            idx % 4 == 0,
            idx <= len,
            grain@.len() == LUT_SIZE,
            color@.len() == LUT_SIZE,
            start < LUT_SIZE,
            lut_idx == (start + idx / 4) % (LUT_SIZE as int),
            forall|k: int| 0 <= k < idx ==> data@[k] == #[trigger] grained_byte(orig, grain@, color@, start as int, k),
            forall|k: int| idx <= k < total ==> #[trigger] data@[k] == orig[k],
        decreases len - idx,
    {
        assert(idx + 4 <= len) by (nonlinear_arith)
            requires
                idx < len,
                idx % 4 == 0,
                len == w * h * 4,
        ;
        let base = grain[lut_idx] as i32;
        let col = color[lut_idx] as i32;
        lut_idx = (lut_idx + 1) % LUT_SIZE;
        let r_off = if base + col < -128 { -128 } else if base + col > 127 { 127 } else { base + col };
        let g_off = if base - col < -128 { -128 } else if base - col > 127 { 127 } else { base - col };
        let r = data[idx] as i32 + r_off;
        let g = data[idx + 1] as i32 + g_off;
        let b = data[idx + 2] as i32 + base;
        data[idx] = if r < 0 { 0 } else if r > 255 { 255 } else { r as u8 };
        data[idx + 1] = if g < 0 { 0 } else if g > 255 { 255 } else { g as u8 };
        data[idx + 2] = if b < 0 { 0 } else if b > 255 { 255 } else { b as u8 };
        idx = idx + 4;
    }
    assert(data@ =~= grained(orig, grain@, color@, start as int, len as int));
}

/// The tables `apply` draws: grain mostly within `-18..18`, sometimes a
/// coarse speck within `-35..35`; colour drift within `-6..6`.
pub open spec fn tables_ok(grain: Seq<i8>, color: Seq<i8>) -> bool {
    &&& grain.len() == LUT_SIZE
    &&& color.len() == LUT_SIZE
    &&& forall|i: int| 0 <= i < LUT_SIZE ==> -35 <= #[trigger] grain[i] < 35
    &&& forall|i: int| 0 <= i < LUT_SIZE ==> -6 <= #[trigger] color[i] < 6
}

/// `new` is `old` under some grain `apply` can draw.
pub open spec fn outcome(old: Seq<u8>, new: Seq<u8>, n: int) -> bool {
    exists|grain: Seq<i8>, color: Seq<i8>, start: int|
        tables_ok(grain, color) && 0 <= start < LUT_SIZE && new == #[trigger] grained(old, grain, color, start, n)
}

/// Cinematic and paper grain: draws the noise tables and a random start
/// entry, and applies them with `grain_with`.
pub fn apply(data: &mut [u8], w: usize, h: usize, rng: &mut fastrand::Rng)
    requires
        old(data)@.len() >= w * h * 4,
    ensures
        outcome(old(data)@, final(data)@, w * h * 4),
        alpha_kept(old(data)@, final(data)@),
        tail_kept(old(data)@, final(data)@, w * h * 4),
{
    let ghost orig = data@;
    let mut grain_lut: Vec<i8> = Vec::new();
    let mut color_lut: Vec<i8> = Vec::new();
    let mut i: usize = 0;
    while i < LUT_SIZE
        invariant
            i <= LUT_SIZE,
            grain_lut@.len() == i,
            color_lut@.len() == i,
            forall|j: int| 0 <= j < i ==> -35 <= #[trigger] grain_lut@[j] < 35,
            forall|j: int| 0 <= j < i ==> -6 <= #[trigger] color_lut@[j] < 6,
        decreases LUT_SIZE - i,
    {
        let base_noise = rng_i8(rng, -18, 17);
        let base_noise = if rng_u8(rng, 0, 255) > 245 {
            rng_i8(rng, -35, 34)
        } else {
            base_noise
        };
        grain_lut.push(base_noise);
        color_lut.push(rng_i8(rng, -6, 5));
        i = i + 1;
    }
    let start = rng_usize(rng, 0, LUT_SIZE - 1);
    grain_with(data, w, h, grain_lut.as_slice(), color_lut.as_slice(), start);
    assert(tables_ok(grain_lut@, color_lut@));
    proof {
        lemma_grain_keeps_alpha(orig, grain_lut@, color_lut@, start as int, w * h * 4);
        assert(tail_kept(orig, data@, w * h * 4));
    }
}

/// The grain never touches the alpha channel.
pub proof fn lemma_grain_keeps_alpha(old: Seq<u8>, grain: Seq<i8>, color: Seq<i8>, start: int, n: int)
    ensures
        alpha_kept(old, grained(old, grain, color, start, n)),
{
}

/// Pixel `p` of the image takes noise entry `(start + p) % 4096`: its red
/// channel moves by grain plus colour drift, its green by grain minus
/// colour drift (each sum saturating in `i8`), its blue by the grain, each
/// saturating in `0..=255`; consecutive pixels read consecutive entries.
pub proof fn lemma_grain_per_pixel(old: Seq<u8>, grain: Seq<i8>, color: Seq<i8>, start: int, n: int, p: int)
    requires
        0 <= p,
        4 * p + 3 < n,
        n <= old.len(),
    ensures
        ({
            let new = grained(old, grain, color, start, n);
            let e = (start + p) % 4096;
            let g = grain[e] as int;
            let col = color[e] as int;
            let r_off = if g + col < -128 { -128 } else if g + col > 127 { 127 } else { g + col };
            let g_off = if g - col < -128 { -128 } else if g - col > 127 { 127 } else { g - col };
            &&& new[4 * p] as int == (if old[4 * p] + r_off < 0 { 0 } else if old[4 * p] + r_off > 255 { 255 } else { old[4 * p] + r_off })
            &&& new[4 * p + 1] as int == (if old[4 * p + 1] + g_off < 0 { 0 } else if old[4 * p + 1] + g_off > 255 { 255 } else { old[4 * p + 1] + g_off })
            &&& new[4 * p + 2] as int == (if old[4 * p + 2] + g < 0 { 0 } else if old[4 * p + 2] + g > 255 { 255 } else { old[4 * p + 2] + g })
            &&& new[4 * p + 3] == old[4 * p + 3]
        }),
{
    assert((4 * p) / 4 == p && (4 * p) % 4 == 0);
    assert((4 * p + 1) / 4 == p && (4 * p + 1) % 4 == 1);
    assert((4 * p + 2) / 4 == p && (4 * p + 2) % 4 == 2);
    assert((4 * p + 3) / 4 == p && (4 * p + 3) % 4 == 3);
}

} // verus!
