//! Wet watercolour edge bleed: every interior pixel is compared with a
//! neighbour picked from a small table of random offsets; at medium
//! contrast pigment pools into a darker, cooler edge, at strong contrast
//! the neighbour's colour bleeds in, and on flat areas water occasionally
//! washes the colour lighter.
use vstd::prelude::*;
use crate::filter::{alpha_kept, tail_kept};
use crate::filter::lemma_pixel_index;
use crate::random::{rng_i32, rng_u8};

verus! {

/// Size of the offset table.
pub const OFFSET_SIZE: usize = 512;

/// The offsets `apply` draws: 512 of them, each coordinate in `-2..=2`.
pub open spec fn offsets_ok(offs: Seq<(i32, i32)>) -> bool {
    &&& offs.len() == OFFSET_SIZE
    &&& forall|i: int| 0 <= i < OFFSET_SIZE ==> -2 <= (#[trigger] offs[i]).0 <= 2 && -2 <= offs[i].1 <= 2
}

pub open spec fn abs_diff(a: int, b: int) -> int {
    if a >= b { a - b } else { b - a }
}

/// `a - b`, floored at 0.
pub open spec fn sat_sub(a: int, b: int) -> u8 {
    if a >= b { (a - b) as u8 } else { 0 }
}

/// `a + b`, capped at 255.
pub open spec fn sat_add(a: int, b: int) -> u8 {
    if a + b <= 255 { (a + b) as u8 } else { 255 }
}

/// The colour difference (sum over red, green, blue) between pixel
/// `(x, y)` and its neighbour at offset `off`.
pub open spec fn contrast(d: Seq<u8>, w: int, x: int, y: int, off: (i32, i32)) -> int {
    let i = (y * w + x) * 4;
    let j = ((y + off.1) * w + (x + off.0)) * 4;
    abs_diff(d[i] as int, d[j] as int) + abs_diff(d[i + 1] as int, d[j + 1] as int) + abs_diff(
        d[i + 2] as int,
        d[j + 2] as int,
    )
}

/// Image `d` after pixel `(x, y)` is treated with offset `off` and wash
/// draw `coin`: pigment pooling at medium contrast (31..150), bleeding
/// (two parts own colour, one part neighbour's) at strong contrast, a wash
/// of +8 on a flat area when the draw exceeds 240; nothing for the zero
/// offset.
pub open spec fn wash_step(d: Seq<u8>, w: int, x: int, y: int, off: (i32, i32), coin: u8) -> Seq<u8> {
    let i = (y * w + x) * 4;
    let j = ((y + off.1) * w + (x + off.0)) * 4;
    let (r, g, b) = (d[i] as int, d[i + 1] as int, d[i + 2] as int);
    let (nr, ng, nb) = (d[j] as int, d[j + 1] as int, d[j + 2] as int);
    let diff = contrast(d, w, x, y, off);
    if off.0 == 0 && off.1 == 0 {
        d
    } else if 30 < diff < 150 {
        let darken = diff / 4;
        d.update(i, sat_sub(r, darken)).update(i + 1, sat_sub(g, darken + darken / 2)).update(
            i + 2,
            sat_sub(b, darken / 3),
        )
    } else if diff >= 150 {
        d.update(i, ((r * 2 + nr) / 3) as u8).update(i + 1, ((g * 2 + ng) / 3) as u8).update(
            i + 2,
            ((b * 2 + nb) / 3) as u8,
        )
    } else if coin > 240 {
        d.update(i, sat_add(r, 8)).update(i + 1, sat_add(g, 8)).update(i + 2, sat_add(b, 8))
    } else {
        d
    }
}

/// Image `d` after the first `n` interior pixels (those at least two
/// pixels from every border, row by row) are treated, pixel `k` with
/// offset `offs[k % 512]` and wash draw `coins[k]`.
pub open spec fn washed(d: Seq<u8>, w: int, offs: Seq<(i32, i32)>, coins: Seq<u8>, n: nat) -> Seq<u8>
    decreases n,
{
    if n == 0 {
        d
    } else {
        let k = n - 1;
        let iw = w - 4;
        wash_step(
            washed(d, w, offs, coins, (n - 1) as nat),
            w,
            2 + k % iw,
            2 + k / iw,
            offs[k % (OFFSET_SIZE as int)],
            coins[k],
        )
    }
}

/// The number of interior pixels of a `w`×`h` image.
pub open spec fn interior(w: int, h: int) -> nat {
    if w > 4 && h > 4 { ((w - 4) * (h - 4)) as nat } else { 0 }
}

/// `new` is `old` under some offsets and wash draws `apply` can make.
pub open spec fn outcome(old: Seq<u8>, new: Seq<u8>, w: int, h: int) -> bool {
    exists|offs: Seq<(i32, i32)>, coins: Seq<u8>|
        offsets_ok(offs) && coins.len() == interior(w, h) && new == #[trigger] washed(
            old,
            w,
            offs,
            coins,
            interior(w, h),
        )
}

/// Draws past pixel `n` do not change the first `n` pixels.
proof fn lemma_washed_prefix(d: Seq<u8>, w: int, offs: Seq<(i32, i32)>, coins: Seq<u8>, c: u8, n: nat)
    requires
        n <= coins.len(),
    ensures
        washed(d, w, offs, coins.push(c), n) == washed(d, w, offs, coins, n),
    decreases n,
{
    if n > 0 {
        lemma_washed_prefix(d, w, offs, coins, c, (n - 1) as nat);
    }
}

/// Treats pixel `(x, y)` with offset `(dx, dy)`, drawing the wash from
/// `rng` on a flat area; returns the draw (0 where none is made).
#[verifier::rlimit(60)]
fn wash_pixel(data: &mut [u8], w: usize, h: usize, x: usize, y: usize, dx: i32, dy: i32, rng: &mut fastrand::Rng) -> (coin: u8)
    requires
        old(data)@.len() >= w * h * 4,
        2 <= x < w - 2,
        2 <= y < h - 2,
        -2 <= dx <= 2,
        -2 <= dy <= 2,
    ensures
        final(data)@ == wash_step(old(data)@, w as int, x as int, y as int, (dx, dy), coin),
{
    let ghost d = data@;
    let len = data.len();
    assert(((y as int) * (w as int) + (x as int)) * 4 + 3 < w * h * 4) by (nonlinear_arith)
        requires
            0 <= x < w,
            0 <= y < h,
    ;
    let idx = (y * w + x) * 4;
    if dx == 0 && dy == 0 {
        return 0;
    }
    let nx = if dx >= 0 { x + dx as usize } else { x - (-dx) as usize };
    let ny = if dy >= 0 { y + dy as usize } else { y - (-dy) as usize };
    assert(((ny as int) * (w as int) + (nx as int)) * 4 + 3 < w * h * 4) by (nonlinear_arith)
        requires
            0 <= nx < w,
            0 <= ny < h,
    ;
    let nidx = (ny * w + nx) * 4;
    assert(nidx == (((y as int) + (dy as int)) * (w as int) + ((x as int) + (dx as int))) * 4);
    let r = data[idx];
    let g = data[idx + 1];
    let b = data[idx + 2];
    let nr = data[nidx];
    let ng = data[nidx + 1];
    let nb = data[nidx + 2];
    let dr: u16 = if r >= nr { (r - nr) as u16 } else { (nr - r) as u16 };
    let dg: u16 = if g >= ng { (g - ng) as u16 } else { (ng - g) as u16 };
    let db: u16 = if b >= nb { (b - nb) as u16 } else { (nb - b) as u16 };
    let diff: u16 = dr + dg + db;
    assert(diff as int == contrast(d, w as int, x as int, y as int, (dx, dy)));
    let ghost i = idx as int;
    if diff > 30 && diff < 150 {
        let darken = (diff / 4) as u8;
        let dg2 = darken + darken / 2;
        data[idx] = if r >= darken { r - darken } else { 0 };
        data[idx + 1] = if g >= dg2 { g - dg2 } else { 0 };
        data[idx + 2] = if b >= darken / 3 { b - darken / 3 } else { 0 };
        assert(data@ =~= d.update(i, sat_sub(r as int, darken as int)).update(i + 1, sat_sub(g as int, dg2 as int)).update(
            i + 2,
            sat_sub(b as int, (darken / 3) as int),
        ));
        0
    } else if diff >= 150 {
        data[idx] = ((r as u16 * 2 + nr as u16) / 3) as u8;
        data[idx + 1] = ((g as u16 * 2 + ng as u16) / 3) as u8;
        data[idx + 2] = ((b as u16 * 2 + nb as u16) / 3) as u8;
        assert(data@ =~= d.update(i, ((r * 2 + nr) / 3) as u8).update(i + 1, ((g * 2 + ng) / 3) as u8).update(
            i + 2,
            ((b * 2 + nb) / 3) as u8,
        ));
        0
    } else {
        let coin = rng_u8(rng, 0, 255);
        if coin > 240 {
            data[idx] = if r <= 247 { r + 8 } else { 255 };
            data[idx + 1] = if g <= 247 { g + 8 } else { 255 };
            data[idx + 2] = if b <= 247 { b + 8 } else { 255 };
            assert(data@ =~= d.update(i, sat_add(r as int, 8)).update(i + 1, sat_add(g as int, 8)).update(i + 2, sat_add(b as int, 8)));
        }
        coin
    }
}

/// The next pixel of the pass: with `k` pixels treated, pixel `k` sits at
/// `(2 + k % iw, 2 + k / iw)`.
proof fn lemma_washed_next(d: Seq<u8>, w: int, offs: Seq<(i32, i32)>, coins: Seq<u8>, coin: u8, x: int, y: int)
    requires
        w > 4,
        2 <= x < w - 2,
        2 <= y,
        coins.len() == (y - 2) * (w - 4) + (x - 2),
    ensures
        washed(d, w, offs, coins.push(coin), coins.len() + 1) == wash_step(
            washed(d, w, offs, coins, coins.len()),
            w,
            x,
            y,
            offs[(coins.len() as int) % (OFFSET_SIZE as int)],
            coin,
        ),
{
    let k = coins.len();
    lemma_washed_prefix(d, w, offs, coins, coin, k);
    vstd::arithmetic::div_mod::lemma_fundamental_div_mod_converse(k as int, w - 4, y - 2, x - 2);
    assert(coins.push(coin)[k as int] == coin);
}

/// The offset index follows the pixel count modulo the table size.
proof fn lemma_next_index(k: int, idx: int)
    requires
        0 <= k,
        idx == k % (OFFSET_SIZE as int),
    ensures
        (idx + 1) % (OFFSET_SIZE as int) == (k + 1) % (OFFSET_SIZE as int),
{
    vstd::arithmetic::div_mod::lemma_add_mod_noop(k, 1, OFFSET_SIZE as int);
    vstd::arithmetic::div_mod::lemma_small_mod(1, OFFSET_SIZE as nat);
}

/// One treated pixel keeps the length and every alpha byte.
proof fn lemma_step_keeps_alpha(d: Seq<u8>, w: int, h: int, x: int, y: int, off: (i32, i32), coin: u8)
    requires
        0 <= x < w,
        0 <= y < h,
        d.len() >= w * h * 4,
    ensures
        alpha_kept(d, wash_step(d, w, x, y, off, coin)),
        tail_kept(d, wash_step(d, w, x, y, off, coin), w * h * 4),
{
    assert((y * w + x) * 4 + 3 < w * h * 4) by (nonlinear_arith)
        requires
            0 <= x < w,
            0 <= y < h,
    ;
    lemma_pixel_index(w, x, y, 0);
    lemma_pixel_index(w, x, y, 1);
    lemma_pixel_index(w, x, y, 2);
    let e = wash_step(d, w, x, y, off, coin);
    let i = (y * w + x) * 4;
    assert forall|k: int| 0 <= k < d.len() && k % 4 == 3 implies #[trigger] e[k] == d[k] by {
        assert(k != i && k != i + 1 && k != i + 2);
    }
    assert forall|k: int| w * h * 4 <= k < d.len() implies #[trigger] e[k] == d[k] by {
        assert(k != i && k != i + 1 && k != i + 2);
    }
}

/// Treats the interior pixels of the `w`×`h` RGBA image `data` row by
/// row, the `k`-th with offset `offsets[k % 512]`, each reading the image
/// as treated so far; the wash draws come from `rng`.
pub fn wash_with(data: &mut [u8], w: usize, h: usize, offsets: &[(i32, i32)], rng: &mut fastrand::Rng)
    requires
        old(data)@.len() >= w * h * 4,
        w >= 2,
        h >= 2,
        offsets_ok(offsets@),
    ensures
        exists|coins: Seq<u8>|
            coins.len() == interior(w as int, h as int) && final(data)@ == #[trigger] washed(
                old(data)@,
                w as int,
                offsets@,
                coins,
                interior(w as int, h as int),
            ),
        alpha_kept(old(data)@, final(data)@),
        tail_kept(old(data)@, final(data)@, w * h * 4),
{
    let ghost orig = data@;
    let ghost mut coins: Seq<u8> = Seq::empty();
    let ghost iw: int = if w > 4 { w - 4 } else { 0 };
    let mut offset_idx: usize = 0;
    let mut y: usize = 2;
    while y < h - 2
        invariant
            data@.len() == orig.len(),
            orig.len() >= w * h * 4,
            tail_kept(orig, data@, w * h * 4),
            w >= 2,
            h >= 2,
            iw == (if w > 4 { w - 4 } else { 0 }),
            2 <= y <= (if h - 2 > 2 { h - 2 } else { 2 }),
            offsets_ok(offsets@),
            coins.len() == (y - 2) * iw,
            offset_idx == (coins.len() as int) % (OFFSET_SIZE as int),
            data@ == washed(orig, w as int, offsets@, coins, coins.len()),
            alpha_kept(orig, data@),
        decreases h - y,
    {
        let mut x: usize = 2;
        while x < w - 2
            invariant
                data@.len() == orig.len(),
                orig.len() >= w * h * 4,
                tail_kept(orig, data@, w * h * 4),
                w >= 2,
                2 <= y < h - 2,
                iw == (if w > 4 { w - 4 } else { 0 }),
                2 <= x <= (if w - 2 > 2 { w - 2 } else { 2 }),
                offsets_ok(offsets@),
                coins.len() == (y - 2) * iw + (x - 2),
                offset_idx == (coins.len() as int) % (OFFSET_SIZE as int),
                data@ == washed(orig, w as int, offsets@, coins, coins.len()),
                alpha_kept(orig, data@),
            decreases w - x,
        {
            let (dx, dy) = offsets[offset_idx];
            let ghost before = data@;
            let coin = wash_pixel(data, w, h, x, y, dx, dy, rng);
            proof {
                assert(w > 4);
                assert(coins.len() == (y - 2) * (w - 4) + (x - 2));
                lemma_washed_next(orig, w as int, offsets@, coins, coin, x as int, y as int);
                lemma_step_keeps_alpha(before, w as int, h as int, x as int, y as int, (dx, dy), coin);
                lemma_next_index(coins.len() as int, offset_idx as int);
                coins = coins.push(coin);
            }
            offset_idx = (offset_idx + 1) % OFFSET_SIZE;
            x = x + 1;
        }
        assert((y - 2) * iw + (x - 2) == (y + 1 - 2) * iw) by (nonlinear_arith)
            requires
                x == (if w - 2 > 2 { w - 2 } else { 2 }),
                iw == (if w > 4 { w - 4 } else { 0 }),
                w >= 2,
        ;
        y = y + 1;
    }
    assert(coins.len() == interior(w as int, h as int)) by (nonlinear_arith)
        requires
            coins.len() == (y - 2) * iw,
            y == (if h - 2 > 2 { h - 2 } else { 2 }),
            iw == (if w > 4 { w - 4 } else { 0 }),
            w >= 2,
            h >= 2,
            interior(w as int, h as int) == (if w > 4 && h > 4 { ((w - 4) * (h - 4)) as nat } else { 0 }),
    ;
}

/// Watercolour edge bleed over the `w`×`h` RGBA image `data`: draws the
/// table of 512 offsets, then runs `wash_with`.
pub fn apply(data: &mut [u8], w: usize, h: usize, rng: &mut fastrand::Rng)
    requires
        old(data)@.len() >= w * h * 4,
        w >= 2,
        h >= 2,
    ensures
        outcome(old(data)@, final(data)@, w as int, h as int),
        alpha_kept(old(data)@, final(data)@),
        tail_kept(old(data)@, final(data)@, w * h * 4),
{
    let mut offsets: Vec<(i32, i32)> = Vec::new();
    let mut i: usize = 0;
    while i < OFFSET_SIZE
        invariant
            i <= OFFSET_SIZE,
            offsets@.len() == i,
            forall|j: int| 0 <= j < i ==> -2 <= (#[trigger] offsets@[j]).0 <= 2 && -2 <= offsets@[j].1 <= 2,
        decreases OFFSET_SIZE - i,
    {
        let ox = rng_i32(rng, -2, 2);
        let oy = rng_i32(rng, -2, 2);
        offsets.push((ox, oy));
        i = i + 1;
    }
    wash_with(data, w, h, offsets.as_slice(), rng);
}

} // verus!
