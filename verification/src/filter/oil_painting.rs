//! Impressionist oil brush strokes: short daubs of paint picked up from the
//! canvas itself, slightly off-tone, smeared in a few directions with a
//! rough, broken edge.
use vstd::prelude::*;
use crate::filter::{alpha_kept, tail_kept};
use crate::filter::cinematic::clamp_u8;
use crate::filter::lemma_pixel_index;
use crate::random::{rng_i32, rng_i8, rng_u8};

verus! {

/// One brush stroke: the pixel `(cx, cy)` it picks its paint from (and
/// starts at), its length in steps (2..=5), its half thickness (1 or 2),
/// its direction (0: right, 1: up-right, 2: down-right, 3: down), the
/// colour jitter added to the paint, and for every cell of its footprint
/// whether the paint takes there.
pub struct Stroke {
    pub cx: i32,
    pub cy: i32,
    pub len: i32,
    pub thick: i32,
    pub dir: u8,
    pub jitter: i8,
    pub coins: Vec<bool>,
}

pub open spec fn step_x(dir: int) -> int {
    if dir <= 2 { 1 } else { 0 }
}

pub open spec fn step_y(dir: int) -> int {
    if dir == 0 { 0 } else if dir == 1 { -1 } else { 1 }
}

/// Number of footprint cells: `len` squares of side `2 * thick`.
pub open spec fn cells(st: Stroke) -> int {
    st.len * (2 * st.thick) * (2 * st.thick)
}

/// Cell `q` of the footprint, in painting order: step `q / (2t)²`, row
/// `q % (2t)² / 2t`, column `q % 2t` of the square around the step's
/// point.
pub open spec fn cell_x(st: Stroke, q: int) -> int {
    let side = 2 * st.thick;
    st.cx + (q / (side * side)) * step_x(st.dir as int) - st.thick + q % side
}

pub open spec fn cell_y(st: Stroke, q: int) -> int {
    let side = 2 * st.thick;
    st.cy + (q / (side * side)) * step_y(st.dir as int) - st.thick + (q % (side * side)) / side
}

/// Paint lands on pixel `(x, y)` from one of the first `n` cells.
pub open spec fn covered(st: Stroke, n: int, x: int, y: int) -> bool {
    exists|q: int| 0 <= q < n && st.coins@[q] && #[trigger] cell_x(st, q) == x && cell_y(st, q) == y
}

/// A stroke `stroke_with` accepts: the shape `apply` draws (2 to 5 steps,
/// half thickness 1 or 2, one of four directions, jitter within 10, a coin
/// per cell) and a start whose footprint stays within `i32`. Cells off
/// the canvas are skipped.
pub open spec fn stroke_ok(st: Stroke) -> bool {
    &&& 2 <= st.len <= 5
    &&& 1 <= st.thick <= 2
    &&& st.dir < 4
    &&& -10 <= st.jitter <= 10
    &&& st.coins@.len() == cells(st)
    &&& 0 <= st.cx
    &&& 0 <= st.cy
    &&& st.cx + st.len + st.thick <= i32::MAX
    &&& st.cy + st.len + st.thick <= i32::MAX
}

/// The stroke picks up paint: its start pixel lies on the `w`×`h` canvas.
pub open spec fn starts_on(st: Stroke, w: int, h: int) -> bool {
    st.cx < w && st.cy < h
}

/// The byte at index `k` after the first `n` cells of stroke `st` on the
/// `w`×`h` image `old`: when the stroke starts on the canvas, colour
/// channels of the canvas pixels its cells cover take the stroke's paint
/// (the start pixel's colour plus the jitter, saturating); the rest is
/// kept.
pub open spec fn stroked_byte(old: Seq<u8>, w: int, h: int, st: Stroke, n: int, k: int) -> u8 {
    let p = k / 4;
    let c = k % 4;
    if k < w * h * 4 && c < 3 && starts_on(st, w, h) && covered(st, n, p % w, p / w) {
        clamp_u8(old[(st.cy * w + st.cx) * 4 + c] + st.jitter)
    } else {
        old[k]
    }
}

/// The image after stroke `st`.
pub open spec fn stroked(old: Seq<u8>, w: int, h: int, st: Stroke) -> Seq<u8> {
    Seq::new(old.len(), |k: int| stroked_byte(old, w, h, st, cells(st), k))
}

/// Pixel `p` of a `w`×`h` canvas sits at column `p % w` and row `p / w`,
/// both on the canvas.
proof fn lemma_canvas_pixel(p: int, w: int, h: int)
    requires
        0 <= p < w * h,
        0 <= w,
        0 <= h,
    ensures
        0 <= p % w < w,
        0 <= p / w < h,
        p == (p / w) * w + p % w,
{
    assert(w > 0) by (nonlinear_arith)
        requires
            0 <= p < w * h,
            h >= 0,
            w >= 0,
    ;
    vstd::arithmetic::div_mod::lemma_fundamental_div_mod(p, w);
    assert(w * (p / w) == (p / w) * w) by (nonlinear_arith);
    assert(p / w < h) by (nonlinear_arith)
        requires
            0 <= p < w * h,
            w > 0,
            p == w * (p / w) + p % w,
            0 <= p % w < w,
    ;
}

/// Paints stroke `st` onto the `w`×`h` RGBA image at the start of `data`,
/// skipping cells off the canvas; a stroke starting off the canvas paints
/// nothing.
pub fn stroke_with(data: &mut [u8], w: usize, h: usize, st: &Stroke)
    requires
        old(data)@.len() >= w * h * 4,
        stroke_ok(*st),
        w <= i32::MAX,
        h <= i32::MAX,
    ensures
        final(data)@ == stroked(old(data)@, w as int, h as int, *st),
{
    let ghost orig = data@;
    let len = data.len();
    if st.cx as usize >= w || st.cy as usize >= h {
        assert(data@ =~= stroked(orig, w as int, h as int, *st));
        return;
    }
    let t = st.thick;
    let side = 2 * t;
    assert(4 <= side * side <= 16) by (nonlinear_arith)
        requires
            1 <= t <= 2,
            side == 2 * t,
    ;
    let sq = side * side;
    assert(8 <= st.len * sq <= 80) by (nonlinear_arith)
        requires
            2 <= st.len <= 5,
            4 <= sq <= 16,
    ;
    let (dx, dy): (i32, i32) = if st.dir == 0 { (1, 0) } else if st.dir == 1 { (1, -1) } else if st.dir == 2 { (1, 1) } else { (0, 1) };
    assert(((st.cy as usize) * w + (st.cx as usize)) * 4 + 3 < w * h * 4) by (nonlinear_arith)
        requires
            0 <= st.cx < w,
            0 <= st.cy < h,
    ;
    let idx0 = ((st.cy as usize) * w + (st.cx as usize)) * 4;
    let mut paint: [u8; 3] = [0, 0, 0];
    let mut c: usize = 0;
    while c < 3
        invariant
            c <= 3,
            idx0 + 3 < len,
            len == orig.len(),
            data@ == orig,
            -10 <= st.jitter <= 10,
            forall|j: int| 0 <= j < c ==> #[trigger] paint@[j] == clamp_u8(orig[idx0 + j] + st.jitter),
        decreases 3 - c,
    {
        let v = data[idx0 + c] as i32 + st.jitter as i32;
        paint[c] = if v < 0 { 0 } else if v > 255 { 255 } else { v as u8 };
        c = c + 1;
    }
    let ncells = (st.len * sq) as usize;
    assert(ncells == cells(*st)) by (nonlinear_arith)
        requires
            ncells == st.len * sq,
            sq == side * side,
            side == 2 * st.thick,
    ;
    let mut q: usize = 0;
    while q < ncells
        invariant
            q <= ncells,
            ncells == cells(*st),
            ncells == st.len * sq,
            ncells <= 80,
            4 <= sq <= 16,
            data@.len() == len,
            len == orig.len(),
            len >= w * h * 4,
            w <= i32::MAX,
            h <= i32::MAX,
            stroke_ok(*st),
            starts_on(*st, w as int, h as int),
            t == st.thick,
            side == 2 * t,
            sq == side * side,
            dx == step_x(st.dir as int),
            dy == step_y(st.dir as int),
            idx0 == ((st.cy as int) * (w as int) + (st.cx as int)) * 4,
            forall|j: int| 0 <= j < 3 ==> #[trigger] paint@[j] == clamp_u8(orig[idx0 + j] + st.jitter),
            forall|k: int| 0 <= k < len ==> #[trigger] data@[k] == stroked_byte(orig, w as int, h as int, *st, q as int, k),
        decreases ncells - q,
    {
        let su: usize = q / (sq as usize);
        assert(su <= q) by (nonlinear_arith)
            requires
                sq >= 1,
                su == (q as int) / (sq as int),
        ;
        let s = su as i32;
        let rem = q % (sq as usize);
        let a = (rem / (side as usize)) as i32;
        let b = (q % (side as usize)) as i32;
        assert(0 <= s < st.len && 0 <= a < side && 0 <= b < side) by (nonlinear_arith)
            requires
                q < st.len * sq,
                sq == side * side,
                side >= 2,
                s == (q as int) / (sq as int),
                rem == (q as int) % (sq as int),
                a == (rem as int) / (side as int),
                b == (q as int) % (side as int),
        ;
        assert(0 <= s * dx <= s && -s <= s * dy <= s) by (nonlinear_arith)
            requires
                0 <= s <= 5,
                0 <= dx <= 1,
                -1 <= dy <= 1,
        ;
        let x = st.cx + s * dx - t + b;
        let y = st.cy + s * dy - t + a;
        assert(x == cell_x(*st, q as int) && y == cell_y(*st, q as int));
        let ghost before = data@;
        if st.coins[q] && x >= 0 && y >= 0 && (x as usize) < w && (y as usize) < h {
            assert(((y as usize) * w + (x as usize)) * 4 + 3 < w * h * 4) by (nonlinear_arith)
                requires
                    0 <= x < w,
                    0 <= y < h,
            ;
            let idx = ((y as usize) * w + (x as usize)) * 4;
            data[idx] = paint[0];
            data[idx + 1] = paint[1];
            data[idx + 2] = paint[2];
            proof {
                lemma_pixel_index(w as int, x as int, y as int, 0);
                lemma_pixel_index(w as int, x as int, y as int, 1);
                lemma_pixel_index(w as int, x as int, y as int, 2);
                lemma_pixel_index(w as int, x as int, y as int, 3);
                assert forall|k: int| 0 <= k < len implies #[trigger] data@[k] == stroked_byte(orig, w as int, h as int, *st, q + 1, k) by {
                    let pk = k / 4;
                    if idx <= k < idx + 3 {
                        assert(cell_x(*st, q as int) == pk % (w as int) && cell_y(*st, q as int) == pk / (w as int));
                        assert(covered(*st, q + 1, pk % (w as int), pk / (w as int)));
                    } else {
                        assert(data@[k] == before[k]);
                        if k < w * h * 4 {
                            lemma_canvas_pixel(pk, w as int, h as int);
                            if k % 4 < 3 && pk % (w as int) == x && pk / (w as int) == y {
                                assert(false);
                            }
                            if covered(*st, q + 1, pk % (w as int), pk / (w as int)) {
                                let qq = choose|qq: int| 0 <= qq < q + 1 && st.coins@[qq] && #[trigger] cell_x(*st, qq) == pk % (w as int) && cell_y(*st, qq) == pk / (w as int);
                                if qq == q {
                                    assert(k % 4 == 3);
                                } else {
                                    assert(covered(*st, q as int, pk % (w as int), pk / (w as int)));
                                }
                            }
                        }
                    }
                }
            }
        } else {
            proof {
                assert forall|k: int| 0 <= k < len implies #[trigger] data@[k] == stroked_byte(orig, w as int, h as int, *st, q + 1, k) by {
                    let pk = k / 4;
                    if k < w * h * 4 && covered(*st, q + 1, pk % (w as int), pk / (w as int)) {
                        lemma_canvas_pixel(pk, w as int, h as int);
                        let qq = choose|qq: int| 0 <= qq < q + 1 && st.coins@[qq] && #[trigger] cell_x(*st, qq) == pk % (w as int) && cell_y(*st, qq) == pk / (w as int);
                        assert(qq != q);
                        assert(covered(*st, q as int, pk % (w as int), pk / (w as int)));
                    }
                }
            }
        }
        q = q + 1;
    }
    assert(data@ =~= stroked(orig, w as int, h as int, *st));
}

/// A stroke paints only within the `w`×`h` pixels, so bytes past them are
/// kept.
pub proof fn lemma_stroke_keeps_tail(old: Seq<u8>, w: int, h: int, st: Stroke)
    requires
        0 <= w,
        0 <= h,
    ensures
        tail_kept(old, stroked(old, w, h, st), w * h * 4),
{
    let new = stroked(old, w, h, st);
    assert forall|k: int| w * h * 4 <= k < old.len() implies #[trigger] new[k] == old[k] by {
        assert(new[k] == stroked_byte(old, w, h, st, cells(st), k));
    }
}

/// The image after the strokes `sts`, in order.
pub open spec fn oiled(img: Seq<u8>, w: int, h: int, sts: Seq<Stroke>) -> Seq<u8>
    decreases sts.len(),
{
    if sts.len() == 0 {
        img
    } else {
        stroked(oiled(img, w, h, sts.drop_last()), w, h, sts.last())
    }
}

/// Draws the footprint of a stroke of `len` steps and half thickness `t`:
/// paint takes on a cell unless the canvas "skips" it (a draw of 0..=40
/// out of 0..=255).
fn draw_coins(rng: &mut fastrand::Rng, n: usize) -> (coins: Vec<bool>)
    ensures
        coins@.len() == n,
{
    let mut coins: Vec<bool> = Vec::new();
    let mut i: usize = 0;
    while i < n
        invariant
            i <= n,
            coins@.len() == i,
        decreases n - i,
    {
        coins.push(rng_u8(rng, 0, 255) > 40);
        i = i + 1;
    }
    coins
}

/// `new` is `old` with some strokes `apply` can draw: one per 40 pixels.
pub open spec fn outcome(old: Seq<u8>, new: Seq<u8>, w: int, h: int) -> bool {
    exists|sts: Seq<Stroke>|
        sts.len() == w * h / 40 && (forall|i: int| 0 <= i < sts.len() ==> stroke_ok(#[trigger] sts[i]))
            && new == #[trigger] oiled(old, w, h, sts)
}

/// Impressionist oil strokes: one stroke per 40 pixels of canvas, each of
/// random length, thickness, start, jitter, direction and broken edge,
/// painted by `stroke_with`.
pub fn apply(data: &mut [u8], w: usize, h: usize, rng: &mut fastrand::Rng)
    requires
        old(data)@.len() >= w * h * 4,
        w <= i32::MAX,
        h <= i32::MAX,
    ensures
        outcome(old(data)@, final(data)@, w as int, h as int),
        alpha_kept(old(data)@, final(data)@),
        tail_kept(old(data)@, final(data)@, w * h * 4),
{
    let ghost orig = data@;
    let len = data.len();
    assert(w * h <= w * h * 4) by (nonlinear_arith);
    let num_strokes = (w * h) / 40;
    let w_i32 = w as i32;
    let h_i32 = h as i32;
    let ghost mut done: Seq<Stroke> = Seq::empty();
    let mut n: usize = 0;
    while n < num_strokes
        invariant
            n <= num_strokes,
            num_strokes == w * h / 40,
            data@.len() >= w * h * 4,
            w <= i32::MAX,
            h <= i32::MAX,
            w_i32 == w,
            h_i32 == h,
            done.len() == n,
            forall|i: int| 0 <= i < done.len() ==> stroke_ok(#[trigger] done[i]),
            data@ == oiled(orig, w as int, h as int, done),
            tail_kept(orig, data@, w * h * 4),
        decreases num_strokes - n,
    {
        let stroke_len = rng_i32(rng, 2, 5);
        let stroke_thick = rng_i32(rng, 1, 2);
        let padding = stroke_len + stroke_thick;
        let x_hi = if w_i32 - padding > padding + 1 { w_i32 - padding } else { padding + 1 };
        let y_hi = if h_i32 - padding > padding + 1 { h_i32 - padding } else { padding + 1 };
        let cx = rng_i32(rng, padding, x_hi - 1);
        let cy = rng_i32(rng, padding, y_hi - 1);
        let jitter = rng_i8(rng, -10, 10);
        let dir = rng_u8(rng, 0, 3);
        let side = 2 * stroke_thick;
        assert(8 <= stroke_len * (side * side) <= 80) by (nonlinear_arith)
            requires
                2 <= stroke_len <= 5,
                1 <= stroke_thick <= 2,
                side == 2 * stroke_thick,
        ;
        let coins = draw_coins(rng, (stroke_len * (side * side)) as usize);
        let st = Stroke { cx, cy, len: stroke_len, thick: stroke_thick, dir, jitter, coins };
        assert(cells(st) == stroke_len * (side * side)) by (nonlinear_arith)
            requires
                cells(st) == st.len * (2 * st.thick) * (2 * st.thick),
                st.len == stroke_len,
                st.thick == stroke_thick,
                side == 2 * stroke_thick,
        ;
        assert(stroke_ok(st));
        let ghost before = data@;
        stroke_with(data, w, h, &st);
        proof {
            lemma_stroke_keeps_tail(before, w as int, h as int, st);
            assert forall|j: int| w * h * 4 <= j < orig.len() implies #[trigger] data@[j] == orig[j] by {
                assert(data@[j] == before[j]);
            }
            let prev = done;
            done = done.push(st);
            assert(done.drop_last() =~= prev);
        }
        n = n + 1;
    }
    proof {
        lemma_oil_keeps_alpha(orig, w as int, h as int, done);
    }
}

/// Brush strokes never touch the alpha channel.
pub proof fn lemma_oil_keeps_alpha(img: Seq<u8>, w: int, h: int, sts: Seq<Stroke>)
    ensures
        alpha_kept(img, oiled(img, w, h, sts)),
    decreases sts.len(),
{
    if sts.len() > 0 {
        lemma_oil_keeps_alpha(img, w, h, sts.drop_last());
    }
}

/// Cell `s·(2t)² + a·2t + b` of a stroke is column `b` and row `a` of the
/// square of step `s`.
proof fn lemma_cell_at(st: Stroke, s: int, a: int, b: int)
    requires
        1 <= st.thick <= 2,
        0 <= s,
        0 <= a < 2 * st.thick,
        0 <= b < 2 * st.thick,
    ensures
        ({
            let side = 2 * st.thick;
            let q = s * (side * side) + a * side + b;
            &&& cell_x(st, q) == st.cx + s * step_x(st.dir as int) - st.thick + b
            &&& cell_y(st, q) == st.cy + s * step_y(st.dir as int) - st.thick + a
        }),
{
    let side = 2 * st.thick;
    let sq = side * side;
    let r = a * side + b;
    assert(0 <= r < sq) by (nonlinear_arith)
        requires
            0 <= a < side,
            0 <= b < side,
            r == a * side + b,
            sq == side * side,
    ;
    let q = s * sq + r;
    vstd::arithmetic::div_mod::lemma_fundamental_div_mod_converse(q, sq, s, r);
    vstd::arithmetic::div_mod::lemma_fundamental_div_mod_converse(r, side, a, b);
    assert(q == (s * side + a) * side + b) by (nonlinear_arith)
        requires
            q == s * sq + r,
            sq == side * side,
            r == a * side + b,
    ;
    vstd::arithmetic::div_mod::lemma_fundamental_div_mod_converse(q, side, s * side + a, b);
}

/// Strokes go where their direction points: every step moves one pixel
/// right for directions 0 to 2, and one pixel up for direction 1 (up-right),
/// none for direction 0, one down for directions 2 and 3; so with every
/// coin down, the pixels `(cx + s·dx - t + b, cy + s·dy - t + a)` of the
/// canvas (for each step `s` and `a, b < 2t`) take the stroke's paint.
pub proof fn lemma_stroke_direction(old: Seq<u8>, w: int, h: int, st: Stroke, s: int, a: int, b: int, c: int)
    requires
        stroke_ok(st),
        starts_on(st, w, h),
        forall|q: int| 0 <= q < cells(st) ==> #[trigger] st.coins@[q],
        0 <= s < st.len,
        0 <= a < 2 * st.thick,
        0 <= b < 2 * st.thick,
        0 <= c < 3,
        old.len() >= w * h * 4,
    ensures
        ({
            let dx: int = if st.dir == 3 { 0 } else { 1 };
            let dy: int = if st.dir == 0 { 0 } else if st.dir == 1 { -1 } else { 1 };
            let x = st.cx + s * dx - st.thick + b;
            let y = st.cy + s * dy - st.thick + a;
            (0 <= x < w && 0 <= y < h) ==> stroked(old, w, h, st)[(y * w + x) * 4 + c] == clamp_u8(
                old[(st.cy * w + st.cx) * 4 + c] + st.jitter,
            )
        }),
{
    let side = 2 * st.thick;
    let dx: int = if st.dir == 3 { 0 } else { 1 };
    let dy: int = if st.dir == 0 { 0 } else if st.dir == 1 { -1 } else { 1 };
    let x = st.cx + s * dx - st.thick + b;
    let y = st.cy + s * dy - st.thick + a;
    if 0 <= x < w && 0 <= y < h {
        lemma_cell_at(st, s, a, b);
        let q = s * (side * side) + a * side + b;
        assert(0 <= q < cells(st)) by (nonlinear_arith)
            requires
                0 <= s < st.len,
                0 <= a < side,
                0 <= b < side,
                q == s * (side * side) + a * side + b,
                cells(st) == st.len * side * side,
        ;
        lemma_pixel_index(w, x, y, c);
        let k = (y * w + x) * 4 + c;
        assert(k < w * h * 4) by (nonlinear_arith)
            requires
                0 <= x < w,
                0 <= y < h,
                0 <= c < 3,
                k == (y * w + x) * 4 + c,
        ;
        assert(st.coins@[q]);
        assert(cell_x(st, q) == (k / 4) % w && cell_y(st, q) == (k / 4) / w);
        assert(covered(st, cells(st), (k / 4) % w, (k / 4) / w));
    }
}

} // verus!
