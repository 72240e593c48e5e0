//! CRT-style wave warp: every row of the image is rotated horizontally by
//! a whole number of pixels that follows a sine wave down the image.
use vstd::prelude::*;
use crate::filter::opaque;
use crate::random::{rng_i32, rng_usize};

verus! {

/// Entry `i` (of 256) of the wave table of amplitude `amp` (1 or 2): the
/// sine of `i / 256` of a turn times `amp`, rounded toward zero, i.e.
/// `amp` at the crest (`i = 64`), `-amp` at the trough (`i = 192`), and for
/// amplitude 2 also `1` where the sine is at least one half (`22..=106`)
/// and `-1` where it is at most minus one half (`150..=234`).
pub open spec fn wave(amp: int, i: int) -> int {
    if i == 64 {
        amp
    } else if i == 192 {
        -amp
    } else if amp == 2 && 22 <= i <= 106 {
        1
    } else if amp == 2 && 150 <= i <= 234 {
        -1
    } else {
        0
    }
}

/// Entry `i` of the wave table of amplitude `amp`.
pub fn wave_entry(amp: i32, i: usize) -> (r: i32)
    requires
        1 <= amp <= 2,
        i < 256,
    ensures
        r == wave(amp as int, i as int),
{
    if i == 64 {
        amp
    } else if i == 192 {
        -amp
    } else if amp == 2 && 22 <= i && i <= 106 {
        1
    } else if amp == 2 && 150 <= i && i <= 234 {
        -1
    } else {
        0
    }
}

/// The shift in pixels of row `y`: the wave table read at `y` (doubled when
/// `freq_shift` is 1) plus `phase`, modulo 256.
pub open spec fn row_shift(amp: int, phase: int, freq_shift: int, y: int) -> int {
    wave(amp, (y * (1 + freq_shift) + phase) % 256)
}

/// The number of complete rows of `w` pixels in `len` bytes.
pub open spec fn rows(len: int, w: int) -> int {
    len / (w * 4)
}

/// The warped image: every complete row `y` rotated right by
/// `row_shift(y)` pixels (left when negative); a partial row at the end is
/// kept.
pub open spec fn warped(old: Seq<u8>, w: int, amp: int, phase: int, freq_shift: int) -> Seq<u8> {
    Seq::new(
        old.len(),
        |k: int|
            {
                let row_len = w * 4;
                let y = k / row_len;
                let j = k % row_len;
                if y < rows(old.len() as int, w) {
                    old[y * row_len + (j - 4 * row_shift(amp, phase, freq_shift, y)) % row_len]
                } else {
                    old[k]
                }
            },
    )
}

/// Rotates every complete row of `w` RGBA pixels in `data` by its wave
/// shift.
pub fn warp_with(data: &mut [u8], w: usize, amp: i32, phase: usize, freq_shift: usize)
    requires
        w * 4 <= usize::MAX,
        1 <= amp <= 2,
        amp <= w,
        phase < 256,
        freq_shift <= 1,
    ensures
        final(data)@ == warped(old(data)@, w as int, amp as int, phase as int, freq_shift as int),
{
    let ghost orig = data@;
    let len = data.len();
    let row_len = w * 4;
    let h = len / row_len;
    let mut y: usize = 0;
    assert(h * row_len <= len && h * 4 <= len) by (nonlinear_arith)
        requires
            row_len >= 4,
            h == len / row_len,
    ;
    while y < h
        invariant
            len == data@.len(),
            len == orig.len(),
            h == rows(len as int, w as int),
            row_len == w * 4,
            1 <= amp <= 2,
            amp <= w,
            phase < 256,
            freq_shift <= 1,
            y <= h,
            h * row_len <= len,
            h * 4 <= len,
            forall|k: int| 0 <= k < y * row_len ==> data@[k] == #[trigger] warped(orig, w as int, amp as int, phase as int, freq_shift as int)[k],
            forall|k: int| y * row_len <= k < len ==> #[trigger] data@[k] == orig[k],
        decreases h - y,
    {
        assert((y + 1) * row_len <= len && y * row_len + row_len == (y + 1) * row_len) by (nonlinear_arith)
            requires
                y < h,
                h * row_len <= len,
        ;
        let base = y * row_len;
        let t = ((if freq_shift == 0 { y } else { y * 2 }) + phase) % 256;
        let offset = wave_entry(amp, t);
        let mut row: Vec<u8> = Vec::new();
        let mut j: usize = 0;
        while j < row_len
            invariant
                j <= row_len,
                row@.len() == j,
                base + row_len <= len,
                len == data@.len(),
                forall|i: int| 0 <= i < j ==> row@[i] == #[trigger] data@[base + i],
            decreases row_len - j,
        {
            row.push(data[base + j]);
            j = j + 1;
        }
        let ghost before = data@;
        let shift: usize = if offset >= 0 { (4 * offset) as usize } else { (4 * (-offset)) as usize };
        assert(shift <= row_len);
        let mut j: usize = 0;
        while j < row_len
            invariant
                j <= row_len,
                row@.len() == row_len,
                row_len == w * 4,
                base == y * row_len,
                base + row_len <= len,
                len == data@.len(),
                before.len() == len,
                -2 <= offset <= 2,
                shift <= row_len,
                offset >= 0 ==> shift == 4 * offset,
                offset < 0 ==> shift == -4 * offset,
                forall|i: int| 0 <= i < row_len ==> row@[i] == #[trigger] before[base + i],
                forall|k: int| 0 <= k < len && (k < base || k >= base + j) ==> #[trigger] data@[k] == before[k],
                forall|i: int| 0 <= i < j ==> #[trigger] data@[base + i] == row@[(i - 4 * offset) % (row_len as int)],
            decreases row_len - j,
        {
            let src = if offset >= 0 {
                if j >= shift { j - shift } else { row_len - (shift - j) }
            } else {
                if j < row_len - shift { j + shift } else { j - (row_len - shift) }
            };
            assert(src == (j - 4 * offset) % (row_len as int)) by (nonlinear_arith)
                requires
                    row_len > 0,
                    j < row_len,
                    shift <= row_len,
                    offset >= 0 ==> shift == 4 * offset,
                    offset < 0 ==> shift == -4 * offset,
                    offset >= 0 && j >= shift ==> src == j - shift,
                    offset >= 0 && j < shift ==> src == row_len - (shift - j),
                    offset < 0 && j < row_len - shift ==> src == j + shift,
                    offset < 0 && j >= row_len - shift ==> src == j - (row_len - shift),
            ;
            data[base + j] = row[src];
            j = j + 1;
        }
        assert(offset == row_shift(amp as int, phase as int, freq_shift as int, y as int));
        proof {
            assert forall|k: int| 0 <= k < (y + 1) * row_len implies data@[k] == #[trigger] warped(orig, w as int, amp as int, phase as int, freq_shift as int)[k] by {
                if k >= base {
                    let i = k - base;
                    assert(y < rows(len as int, w as int));
                    assert(k / (row_len as int) == y && k % (row_len as int) == i) by (nonlinear_arith)
                        requires
                            k == y * row_len + i,
                            0 <= i < row_len,
                    ;
                    let si = (i - 4 * offset) % (row_len as int);
                    assert(0 <= si < row_len);
                    assert(data@[base + i] == row@[si]);
                    assert(row@[si] == before[base + si]);
                    assert(before[base + si] == orig[base + si]);
                    assert(warped(orig, w as int, amp as int, phase as int, freq_shift as int)[k] == orig[y * row_len + si]);
                } else {
                    assert(data@[k] == before[k]);
                }
            }
        }
        y = y + 1;
    }
    proof {
        assert forall|k: int| 0 <= k < len implies #[trigger] data@[k] == warped(orig, w as int, amp as int, phase as int, freq_shift as int)[k] by {
            if k >= h * row_len {
                assert(k / (row_len as int) >= h) by (nonlinear_arith)
                    requires
                        k >= h * row_len,
                        row_len > 0,
                ;
            }
        }
    }
    assert(data@ =~= warped(orig, w as int, amp as int, phase as int, freq_shift as int));
}

/// `new` is `old` under some warp `apply` can draw.
pub open spec fn outcome(old: Seq<u8>, new: Seq<u8>, w: int) -> bool {
    exists|amp: int, phase: int, freq_shift: int|
        1 <= amp <= 2 && 0 <= phase < 256 && 0 <= freq_shift <= 1 && new == #[trigger] warped(old, w, amp, phase, freq_shift)
}

/// Sine-wave warp: a random amplitude (1 or 2 pixels), phase and
/// frequency, applied by `warp_with` to every complete row of `w` pixels
/// (the height is not needed).
pub fn apply(data: &mut [u8], w: usize, h: usize, rng: &mut fastrand::Rng)
    requires
        w * 4 <= usize::MAX,
        w >= 2,
    ensures
        outcome(old(data)@, final(data)@, w as int),
        opaque(old(data)@) ==> opaque(final(data)@),
{
    let ghost orig = data@;
    let amp = rng_i32(rng, 1, 2);
    let phase = rng_usize(rng, 0, 255);
    let freq_shift = rng_usize(rng, 0, 1);
    warp_with(data, w, amp, phase, freq_shift);
    proof {
        if opaque(orig) {
            lemma_warp_keeps_opaque(orig, w as int, amp as int, phase as int, freq_shift as int);
        }
    }
}

/// The warp moves whole pixels, so a fully opaque image stays so.
pub proof fn lemma_warp_keeps_opaque(old: Seq<u8>, w: int, amp: int, phase: int, freq_shift: int)
    requires
        w >= 1,
        opaque(old),
    ensures
        opaque(warped(old, w, amp, phase, freq_shift)),
{
    let new = warped(old, w, amp, phase, freq_shift);
    let row_len = w * 4;
    assert forall|k: int| 0 <= k < new.len() && k % 4 == 3 implies #[trigger] new[k] == 255 by {
        let y = k / row_len;
        let j = k % row_len;
        let s = 4 * row_shift(amp, phase, freq_shift, y);
        let m = (j - s) % row_len;
        vstd::arithmetic::div_mod::lemma_fundamental_div_mod(k, row_len);
        vstd::arithmetic::div_mod::lemma_mod_mod(k, 4, w);
        vstd::arithmetic::div_mod::lemma_mod_mod(j - s, 4, w);
        vstd::arithmetic::div_mod::lemma_mod_multiples_vanish(-row_shift(amp, phase, freq_shift, y), j, 4);
        vstd::arithmetic::div_mod::lemma_mod_multiples_vanish(y * w, m, 4);
        if y < rows(old.len() as int, w) {
            let h = rows(old.len() as int, w);
            assert(h * row_len <= old.len()) by (nonlinear_arith)
                requires
                    h == (old.len() as int) / row_len,
                    row_len > 0;
            assert(y * row_len + m < old.len()) by (nonlinear_arith)
                requires
                    0 <= y < h,
                    0 <= m < row_len,
                    h * row_len <= old.len();
            assert(y * row_len == 4 * (y * w)) by (nonlinear_arith)
                requires row_len == w * 4;
            assert((y * row_len + m) % 4 == 3);
        }
    }
}

} // verus!
