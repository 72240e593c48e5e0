//! Organic ink splashes: clusters of metaballs whose summed field, where it
//! exceeds a threshold, is painted with a translucent horizontal colour
//! gradient.
use vstd::prelude::*;
use crate::filter::{alpha_kept, tail_kept};
use crate::filter::lemma_pixel_index;
use crate::random::{rng_i32, rng_u32, rng_usize};

verus! {

/// One metaball: centre and radius in pixels.
#[derive(Clone, Copy)]
pub struct Ball {
    pub cx: i32,
    pub cy: i32,
    pub r: i32,
}

/// One ink splash: its balls, the gradient's start and end colours (red,
/// green, blue) from its left to its right edge, and its opacity out of 256.
pub struct Cluster {
    pub balls: Vec<Ball>,
    pub start: [i32; 3],
    pub end: [i32; 3],
    pub alpha: u32,
}

pub open spec fn min(a: int, b: int) -> int {
    if a < b { a } else { b }
}

pub open spec fn max(a: int, b: int) -> int {
    if a > b { a } else { b }
}

/// The leftmost reach (three radii) of the first `n` balls, starting from
/// `w`.
pub open spec fn reach_min_x(balls: Seq<Ball>, n: int, w: int) -> int
    decreases n,
{
    if n <= 0 { w } else { min(reach_min_x(balls, n - 1, w), balls[n - 1].cx - balls[n - 1].r * 3) }
}

pub open spec fn reach_min_y(balls: Seq<Ball>, n: int, h: int) -> int
    decreases n,
{
    if n <= 0 { h } else { min(reach_min_y(balls, n - 1, h), balls[n - 1].cy - balls[n - 1].r * 3) }
}

pub open spec fn reach_max_x(balls: Seq<Ball>, n: int) -> int
    decreases n,
{
    if n <= 0 { 0 } else { max(reach_max_x(balls, n - 1), balls[n - 1].cx + balls[n - 1].r * 3) }
}

pub open spec fn reach_max_y(balls: Seq<Ball>, n: int) -> int
    decreases n,
{
    if n <= 0 { 0 } else { max(reach_max_y(balls, n - 1), balls[n - 1].cy + balls[n - 1].r * 3) }
}

/// The box `[x0, x1) × [y0, y1)` the balls can affect, clipped to the
/// canvas.
pub open spec fn bbox(balls: Seq<Ball>, w: int, h: int) -> (int, int, int, int) {
    let n = balls.len() as int;
    (
        max(reach_min_x(balls, n, w), 0),
        min(max(reach_max_x(balls, n), 0), w),
        max(reach_min_y(balls, n, h), 0),
        min(max(reach_max_y(balls, n), 0), h),
    )
}

/// The summed field of the first `n` balls at `(x, y)`: each contributes
/// `256 r²` over one plus its squared distance, rounded down.
pub open spec fn field(balls: Seq<Ball>, n: int, x: int, y: int) -> int
    decreases n,
{
    if n <= 0 {
        0
    } else {
        let b = balls[n - 1];
        field(balls, n - 1, x, y) + (b.r * b.r * 256) / ((x - b.cx) * (x - b.cx) + (y - b.cy) * (y
            - b.cy) + 1)
    }
}

/// Division rounding toward zero, by a positive divisor.
pub open spec fn tdiv(a: int, b: int) -> int {
    if a >= 0 { a / b } else { -((-a) / b) }
}

/// The byte at index `k` after painting splash `cl`: inside the box, where
/// the field exceeds 256, the colour channels are blended (weight `alpha`
/// of 256) toward the gradient colour at that column; elsewhere unchanged.
pub open spec fn painted_byte(old: Seq<u8>, w: int, h: int, cl: Cluster, k: int) -> u8 {
    let p = k / 4;
    let c = k % 4;
    let x = p % w;
    let y = p / w;
    let (x0, x1, y0, y1) = bbox(cl.balls@, w, h);
    if c < 3 && x0 <= x < x1 && y0 <= y < y1 && field(cl.balls@, cl.balls@.len() as int, x, y) > 256 {
        let ratio = (x - x0) * 256 / max(x1 - x0, 1);
        let paint = cl.start@[c] + tdiv((cl.end@[c] - cl.start@[c]) * ratio, 256);
        ((paint * cl.alpha + old[k] * (256 - cl.alpha)) / 256) as u8
    } else {
        old[k]
    }
}

/// The image after painting splash `cl`: nothing is painted unless the
/// rows of its box lie within the buffer.
pub open spec fn painted(old: Seq<u8>, w: int, h: int, cl: Cluster) -> Seq<u8> {
    Seq::new(
        old.len(),
        |k: int|
            if bbox(cl.balls@, w, h).3 * w * 4 <= old.len() {
                painted_byte(old, w, h, cl, k)
            } else {
                old[k]
            },
    )
}

/// The canvas sizes the filter accepts: coordinates, splash centres and
/// ball reaches stay within `i32`, and the byte offset of the end of the
/// canvas within `usize`.
pub open spec fn size_ok(w: int, h: int) -> bool {
    &&& w <= i32::MAX - 200
    &&& h <= i32::MAX - 200
    &&& w * h * 4 <= usize::MAX
}

/// A splash `paint_cluster` accepts: at most 24 balls with centres from
/// -100 to 100 below `i32::MAX` and radii 1..20, colours in 0..=255 and
/// opacity at most 256.
pub open spec fn cluster_ok(cl: Cluster) -> bool {
    &&& cl.balls@.len() <= 24
    &&& forall|i: int|
        0 <= i < cl.balls@.len() ==> -100 <= (#[trigger] cl.balls@[i]).cx <= i32::MAX - 100 && -100
            <= cl.balls@[i].cy <= i32::MAX - 100 && 1 <= cl.balls@[i].r <= 20
    &&& forall|c: int| 0 <= c < 3 ==> 0 <= #[trigger] cl.start@[c] <= 255 && 0 <= cl.end@[c] <= 255
    &&& cl.alpha <= 256
}

/// The canvas box the balls can affect.
fn cluster_bbox(balls: &Vec<Ball>, w: usize, h: usize) -> (r: (i32, i32, i32, i32))
    requires
        size_ok(w as int, h as int),
        balls@.len() <= 24,
        forall|i: int|
            0 <= i < balls@.len() ==> -100 <= (#[trigger] balls@[i]).cx <= i32::MAX - 100 && -100
                <= balls@[i].cy <= i32::MAX - 100 && 1 <= balls@[i].r <= 20,
    ensures
        r.0 == bbox(balls@, w as int, h as int).0,
        r.1 == bbox(balls@, w as int, h as int).1,
        r.2 == bbox(balls@, w as int, h as int).2,
        r.3 == bbox(balls@, w as int, h as int).3,
        0 <= r.0,
        r.1 <= w,
        0 <= r.2,
        r.3 <= h,
{
    let mut min_x = w as i32;
    let mut min_y = h as i32;
    let mut max_x: i32 = 0;
    let mut max_y: i32 = 0;
    let mut i: usize = 0;
    while i < balls.len()
        invariant
            i <= balls@.len(),
            size_ok(w as int, h as int),
            forall|j: int|
                0 <= j < balls@.len() ==> -100 <= (#[trigger] balls@[j]).cx <= i32::MAX - 100 && -100
                    <= balls@[j].cy <= i32::MAX - 100 && 1 <= balls@[j].r <= 20,
            min_x == reach_min_x(balls@, i as int, w as int),
            min_y == reach_min_y(balls@, i as int, h as int),
            max_x == reach_max_x(balls@, i as int),
            max_y == reach_max_y(balls@, i as int),
            -200 <= min_x <= w,
            -200 <= min_y <= h,
            0 <= max_x <= i32::MAX - 40,
            0 <= max_y <= i32::MAX - 40,
        decreases balls@.len() - i,
    {
        let b = balls[i];
        let influence = b.r * 3;
        if b.cx - influence < min_x { min_x = b.cx - influence; }
        if b.cy - influence < min_y { min_y = b.cy - influence; }
        if b.cx + influence > max_x { max_x = b.cx + influence; }
        if b.cy + influence > max_y { max_y = b.cy + influence; }
        i = i + 1;
    }
    let x_start = if min_x > 0 { min_x } else { 0 };
    let x_end = if max_x < w as i32 { max_x } else { w as i32 };
    let y_start = if min_y > 0 { min_y } else { 0 };
    let y_end = if max_y < h as i32 { max_y } else { h as i32 };
    (x_start, x_end, y_start, y_end)
}

/// The field of all balls at `(x, y)`.
fn field_at(balls: &Vec<Ball>, x: i32, y: i32) -> (s: i32)
    requires
        0 <= x,
        0 <= y,
        balls@.len() <= 24,
        forall|i: int|
            0 <= i < balls@.len() ==> -100 <= (#[trigger] balls@[i]).cx <= i32::MAX - 100 && -100
                <= balls@[i].cy <= i32::MAX - 100 && 1 <= balls@[i].r <= 20,
    ensures
        s == field(balls@, balls@.len() as int, x as int, y as int),
{
    let mut sum: i32 = 0;
    let mut i: usize = 0;
    while i < balls.len()
        invariant
            i <= balls@.len(),
            balls@.len() <= 24,
            0 <= x,
            0 <= y,
            forall|j: int|
                0 <= j < balls@.len() ==> -100 <= (#[trigger] balls@[j]).cx <= i32::MAX - 100 && -100
                    <= balls@[j].cy <= i32::MAX - 100 && 1 <= balls@[j].r <= 20,
            sum == field(balls@, i as int, x as int, y as int),
            0 <= sum <= i * 102400,
        decreases balls@.len() - i,
    {
        let b = balls[i];
        let dx = x as i128 - b.cx as i128;
        let dy = y as i128 - b.cy as i128;
        assert(0 <= dx * dx <= 0x1_0000_0000_0000_0000 && 0 <= dy * dy <= 0x1_0000_0000_0000_0000) by (nonlinear_arith)
            requires
                -0x1_0000_0000 <= dx <= 0x1_0000_0000,
                -0x1_0000_0000 <= dy <= 0x1_0000_0000,
        ;
        let dist_sq = dx * dx + dy * dy + 1;
        assert(0 <= b.r * b.r * 256 <= 102400) by (nonlinear_arith)
            requires
                1 <= b.r <= 20,
        ;
        let r_sq_scaled = (b.r * b.r * 256) as i128;
        let q = r_sq_scaled / dist_sq;
        assert(0 <= q <= r_sq_scaled) by (nonlinear_arith)
            requires
                dist_sq >= 1,
                0 <= r_sq_scaled,
                q == r_sq_scaled / dist_sq,
        ;
        sum = sum + q as i32;
        i = i + 1;
    }
    sum
}

/// Paints splash `cl` onto the `w`×`h` RGBA image at the start of
/// `data`, provided the rows of its box lie within `data`.
pub fn paint_cluster(data: &mut [u8], w: usize, h: usize, cl: &Cluster)
    requires
        size_ok(w as int, h as int),
        cluster_ok(*cl),
    ensures
        final(data)@ == painted(old(data)@, w as int, h as int, *cl),
{
    let ghost orig = data@;
    let len = data.len();
    let ghost bb = bbox(cl.balls@, w as int, h as int);
    let (x_start, x_end, y_start, y_end) = cluster_bbox(&cl.balls, w, h);
    assert((y_end as int) * w * 4 <= w * h * 4) by (nonlinear_arith)
        requires
            y_end <= h,
    ;
    if y_start < y_end && x_start < x_end && (y_end as usize) * w * 4 <= len {
        let x_span = x_end - x_start;
        let alpha = cl.alpha;
        let inv_alpha = 256 - alpha;
        let mut y = y_start;
        while y < y_end
            invariant
                data@.len() == orig.len(),
                y_end * w * 4 <= orig.len(),
                len == orig.len(),
                size_ok(w as int, h as int),
                cluster_ok(*cl),
                bb == bbox(cl.balls@, w as int, h as int),
                x_start == bb.0, x_end == bb.1, y_start == bb.2, y_end == bb.3,
                0 <= x_start < x_end <= w,
                0 <= y_start <= y,
                y <= y_end <= h,
                x_span == x_end - x_start,
                alpha == cl.alpha,
                inv_alpha == 256 - alpha,
                forall|k: int|
                    0 <= k < orig.len() ==> #[trigger] data@[k] == if (k / 4) / (w as int) < y {
                        painted_byte(orig, w as int, h as int, *cl, k)
                    } else {
                        orig[k]
                    },
            decreases y_end - y,
        {
            let mut x = x_start;
            while x < x_end
                invariant
                    data@.len() == orig.len(),
                    y_end * w * 4 <= orig.len(),
                    len == orig.len(),
                    size_ok(w as int, h as int),
                    cluster_ok(*cl),
                    bb == bbox(cl.balls@, w as int, h as int),
                    x_start == bb.0, x_end == bb.1, y_start == bb.2, y_end == bb.3,
                    0 <= x_start <= x,
                    x <= x_end <= w,
                    x_start < x_end,
                    0 <= y_start <= y,
                    y < y_end <= h,
                    x_span == x_end - x_start,
                    alpha == cl.alpha,
                    inv_alpha == 256 - alpha,
                    forall|k: int|
                        0 <= k < orig.len() ==> #[trigger] data@[k] == if (k / 4) / (w as int) < y
                            || ((k / 4) / (w as int) == y && (k / 4) % (w as int) < x) {
                            painted_byte(orig, w as int, h as int, *cl, k)
                        } else {
                            orig[k]
                        },
                decreases x_end - x,
            {
                let sum = field_at(&cl.balls, x, y);
                assert(((y as usize) * w + (x as usize)) * 4 + 3 < y_end * w * 4) by (nonlinear_arith)
                    requires
                        0 <= x < w,
                        0 <= y < y_end,
                ;
                let base = ((y as usize) * w + (x as usize)) * 4;
                proof {
                    lemma_pixel_index(w as int, x as int, y as int, 0);
                    lemma_pixel_index(w as int, x as int, y as int, 1);
                    lemma_pixel_index(w as int, x as int, y as int, 2);
                    lemma_pixel_index(w as int, x as int, y as int, 3);
                }
                let ghost before = data@;
                if sum > 256 {
                    let ratio = (((x - x_start) as i64 * 256) / (x_span as i64)) as i32;
                    assert(0 <= ((x - x_start) * 256) / (x_span as int) <= 256) by (nonlinear_arith)
                        requires
                            0 <= x - x_start < x_span,
                    ;
                    let mut c: usize = 0;
                    while c < 3
                        invariant
                            c <= 3,
                            data@.len() == orig.len(),
                            y_end * w * 4 <= orig.len(),
                            size_ok(w as int, h as int),
                            base == ((y as int) * (w as int) + (x as int)) * 4,
                            base + 3 < orig.len(),
                            0 <= x_start <= x < x_end <= w,
                            0 <= y_start <= y < y_end <= h,
                            bb == bbox(cl.balls@, w as int, h as int),
                            x_start == bb.0, x_end == bb.1, y_start == bb.2, y_end == bb.3,
                            x_span == x_end - x_start,
                            ratio == ((x - x_start) * 256) / (x_span as int),
                            0 <= ratio <= 256,
                            sum == field(cl.balls@, cl.balls@.len() as int, x as int, y as int),
                            sum > 256,
                            cluster_ok(*cl),
                            alpha == cl.alpha,
                            inv_alpha == 256 - alpha,
                            forall|cc: int| 0 <= cc < 4 ==> ((base + cc) / 4) / (w as int) == y && ((base + cc) / 4) % (w as int) == x && #[trigger] ((base + cc) % 4) == cc,
                            forall|cc: int| 0 <= cc < 4 ==> #[trigger] before[base + cc] == orig[base + cc],
                            forall|k: int| 0 <= k < orig.len() && !(base <= k < base + c) ==> #[trigger] data@[k] == before[k],
                            forall|k: int| base <= k < base + c ==> #[trigger] data@[k] == painted_byte(orig, w as int, h as int, *cl, k),
                        decreases 3 - c,
                    {
                        let st = cl.start[c];
                        let en = cl.end[c];
                        assert(-255 * 256 <= (en - st) * ratio <= 255 * 256) by (nonlinear_arith)
                            requires
                                -255 <= en - st <= 255,
                                0 <= ratio <= 256,
                        ;
                        let paint = st + ((en - st) * ratio) / 256;
                        assert(0 <= paint <= 255) by (nonlinear_arith)
                            requires
                                0 <= st <= 255,
                                0 <= en <= 255,
                                0 <= ratio <= 256,
                                paint == st + (if (en - st) * ratio >= 0 { ((en - st) * ratio) / 256 } else { -((-((en - st) * ratio)) / 256) }),
                        ;
                        let org = data[base + c] as u32;
                        assert(paint as u32 * alpha + org * inv_alpha <= 255 * 256) by (nonlinear_arith)
                            requires
                                0 <= paint <= 255,
                                org <= 255,
                                alpha <= 256,
                                inv_alpha == 256 - alpha,
                        ;
                        data[base + c] = ((paint as u32 * alpha + org * inv_alpha) / 256) as u8;
                        c = c + 1;
                    }
                }
                proof {
                    assert forall|k: int| 0 <= k < orig.len() implies #[trigger] data@[k] == if (k / 4) / (w as int) < y
                            || ((k / 4) / (w as int) == y && (k / 4) % (w as int) < x + 1) {
                            painted_byte(orig, w as int, h as int, *cl, k)
                        } else {
                            orig[k]
                        } by {
                        let pk = k / 4;
                        vstd::arithmetic::div_mod::lemma_fundamental_div_mod(pk, w as int);
                        if base <= k < base + 4 {
                            let cc = k - base;
                            assert(k == base + cc);
                            assert(((base + cc) / 4) / (w as int) == y && ((base + cc) / 4) % (w as int) == x && (base + cc) % 4 == cc);
                            assert(before[base + cc] == orig[base + cc]);
                            if sum > 256 && cc < 3 {
                                assert(data@[base + cc] == painted_byte(orig, w as int, h as int, *cl, base + cc));
                            } else {
                                assert(data@[k] == before[k]);
                                assert(painted_byte(orig, w as int, h as int, *cl, k) == orig[k]);
                            }
                        } else {
                            assert(data@[k] == before[k]);
                            if pk / (w as int) == y && pk % (w as int) == x {
                                assert(pk == (y as int) * (w as int) + (x as int)) by (nonlinear_arith)
                                    requires
                                        pk == (w as int) * (pk / (w as int)) + pk % (w as int),
                                        pk / (w as int) == y,
                                        pk % (w as int) == x,
                                ;
                                assert(false);
                            }
                        }
                    }
                }
                x = x + 1;
            }
            y = y + 1;
        }
    }
    assert(data@ =~= painted(orig, w as int, h as int, *cl));
}

/// The image after painting the splashes `cls` in order.
pub open spec fn splashed(img: Seq<u8>, w: int, h: int, cls: Seq<Cluster>) -> Seq<u8>
    decreases cls.len(),
{
    if cls.len() == 0 {
        img
    } else {
        painted(splashed(img, w, h, cls.drop_last()), w, h, cls.last())
    }
}

/// Ball `i` of a splash centred at `(mx, my)`: the first two form the
/// body (offset within -5..5, radius 12..20), the next four the ragged
/// edge (offset within -15..15, radius 6..12), the rest the spray (offset
/// within -35..35, radius 2..5).
pub open spec fn ball_ok(b: Ball, i: int, mx: int, my: int) -> bool {
    if i < 2 {
        -5 <= b.cx - mx < 5 && -5 <= b.cy - my < 5 && 12 <= b.r < 20
    } else if i < 6 {
        -15 <= b.cx - mx < 15 && -15 <= b.cy - my < 15 && 6 <= b.r < 12
    } else {
        -35 <= b.cx - mx < 35 && -35 <= b.cy - my < 35 && 2 <= b.r < 5
    }
}

/// Every ball lies around `(mx, my)` as its rank prescribes.
pub open spec fn centred(balls: Seq<Ball>, mx: int, my: int) -> bool {
    forall|i: int| 0 <= i < balls.len() ==> #[trigger] ball_ok(balls[i], i, mx, my)
}

/// A splash `apply` can draw on a `w`×`h` canvas: 15..24 balls around a
/// centre at least 20 pixels inside the top-left corner and before
/// `max(21, w - 20)`, `max(21, h - 20)`; colours 0..255; opacity 50..120.
pub open spec fn drawn_ok(cl: Cluster, w: int, h: int) -> bool {
    &&& 15 <= cl.balls@.len() < 24
    &&& exists|mx: int, my: int|
        20 <= mx < max(21, w - 20) && 20 <= my < max(21, h - 20) && #[trigger] centred(cl.balls@, mx, my)
    &&& forall|c: int| 0 <= c < 3 ==> 0 <= #[trigger] cl.start@[c] < 255 && 0 <= cl.end@[c] < 255
    &&& 50 <= cl.alpha < 120
}

/// Draws the balls of one splash around `(mx, my)`.
fn draw_balls(rng: &mut fastrand::Rng, n: usize, mx: i32, my: i32) -> (balls: Vec<Ball>)
    requires
        n <= 24,
        20 <= mx <= i32::MAX - 200,
        20 <= my <= i32::MAX - 200,
    ensures
        balls@.len() == n,
        forall|i: int| 0 <= i < n ==> #[trigger] ball_ok(balls@[i], i, mx as int, my as int),
{
    let mut balls: Vec<Ball> = Vec::new();
    let mut i: usize = 0;
    while i < n
        invariant
            i <= n,
            n <= 24,
            20 <= mx <= i32::MAX - 200,
            20 <= my <= i32::MAX - 200,
            balls@.len() == i,
            forall|j: int| 0 <= j < i ==> #[trigger] ball_ok(balls@[j], j, mx as int, my as int),
        decreases n - i,
    {
        let b = if i < 2 {
            let cx = mx + rng_i32(rng, -5, 4);
            let cy = my + rng_i32(rng, -5, 4);
            Ball { cx, cy, r: rng_i32(rng, 12, 19) }
        } else if i < 6 {
            let cx = mx + rng_i32(rng, -15, 14);
            let cy = my + rng_i32(rng, -15, 14);
            Ball { cx, cy, r: rng_i32(rng, 6, 11) }
        } else {
            let cx = mx + rng_i32(rng, -35, 34);
            let cy = my + rng_i32(rng, -35, 34);
            Ball { cx, cy, r: rng_i32(rng, 2, 4) }
        };
        balls.push(b);
        i = i + 1;
    }
    balls
}

/// `new` is `old` with some splashes `apply` can draw.
pub open spec fn outcome(old: Seq<u8>, new: Seq<u8>, w: int, h: int) -> bool {
    exists|cls: Seq<Cluster>|
        4 <= cls.len() <= 7 && (forall|i: int| 0 <= i < cls.len() ==> drawn_ok(#[trigger] cls[i], w, h))
            && new == #[trigger] splashed(old, w, h, cls)
}

/// Metaball ink splashes: four to seven random splashes, each painted by
/// `paint_cluster`.
pub fn apply(data: &mut [u8], w: usize, h: usize, rng: &mut fastrand::Rng)
    requires
        size_ok(w as int, h as int),
    ensures
        outcome(old(data)@, final(data)@, w as int, h as int),
        alpha_kept(old(data)@, final(data)@),
        tail_kept(old(data)@, final(data)@, w * h * 4),
{
    let ghost orig = data@;
    let num_clusters = rng_usize(rng, 4, 7);
    let ghost mut done: Seq<Cluster> = Seq::empty();
    let mut k: usize = 0;
    while k < num_clusters
        invariant
            k <= num_clusters <= 7,
            4 <= num_clusters,
            data@.len() == orig.len(),
            size_ok(w as int, h as int),
            done.len() == k,
            forall|i: int| 0 <= i < done.len() ==> drawn_ok(#[trigger] done[i], w as int, h as int),
            data@ == splashed(orig, w as int, h as int, done),
        decreases num_clusters - k,
    {
        let num_balls = rng_usize(rng, 15, 23);
        let x_end: i32 = if w as i32 - 20 > 21 { w as i32 - 20 } else { 21 };
        let y_end: i32 = if h as i32 - 20 > 21 { h as i32 - 20 } else { 21 };
        let main_cx = rng_i32(rng, 20, x_end - 1);
        let main_cy = rng_i32(rng, 20, y_end - 1);
        let balls = draw_balls(rng, num_balls, main_cx, main_cy);
        let r_start = rng_i32(rng, 0, 254);
        let g_start = rng_i32(rng, 0, 254);
        let b_start = rng_i32(rng, 0, 254);
        let r_end = rng_i32(rng, 0, 254);
        let g_end = rng_i32(rng, 0, 254);
        let b_end = rng_i32(rng, 0, 254);
        let alpha = rng_u32(rng, 50, 119);
        let cl = Cluster { balls, start: [r_start, g_start, b_start], end: [r_end, g_end, b_end], alpha };
        assert forall|i: int| 0 <= i < cl.balls@.len() implies -100 <= (#[trigger] cl.balls@[i]).cx <= i32::MAX - 100 && -100
            <= cl.balls@[i].cy <= i32::MAX - 100 && 1 <= cl.balls@[i].r <= 20 by {
            assert(ball_ok(cl.balls@[i], i, main_cx as int, main_cy as int));
        }
        assert(cluster_ok(cl));
        assert(centred(cl.balls@, main_cx as int, main_cy as int));
        assert(drawn_ok(cl, w as int, h as int));
        paint_cluster(data, w, h, &cl);
        proof {
            let prev = done;
            done = done.push(cl);
            assert(done.drop_last() =~= prev);
        }
        k = k + 1;
    }
    assert(4 <= done.len() <= 7);
    proof {
        lemma_splashes_keep_alpha(orig, w as int, h as int, done);
        lemma_splashes_keep_tail(orig, w as int, h as int, done);
    }
}

/// Splashes never touch the alpha channel.
pub proof fn lemma_splashes_keep_alpha(img: Seq<u8>, w: int, h: int, cls: Seq<Cluster>)
    ensures
        alpha_kept(img, splashed(img, w, h, cls)),
    decreases cls.len(),
{
    if cls.len() > 0 {
        lemma_splashes_keep_alpha(img, w, h, cls.drop_last());
    }
}

/// Splashes paint only within the `w`×`h` pixels: bytes past them are
/// kept.
pub proof fn lemma_splashes_keep_tail(img: Seq<u8>, w: int, h: int, cls: Seq<Cluster>)
    requires
        w >= 0,
        h >= 0,
    ensures
        tail_kept(img, splashed(img, w, h, cls), w * h * 4),
    decreases cls.len(),
{
    if cls.len() > 0 {
        lemma_splashes_keep_tail(img, w, h, cls.drop_last());
        let prev = splashed(img, w, h, cls.drop_last());
        let new = splashed(img, w, h, cls);
        assert forall|k: int| w * h * 4 <= k < img.len() implies #[trigger] new[k] == img[k] by {
            let p = k / 4;
            if w >= 1 {
                assert(p / w >= h) by (nonlinear_arith)
                    requires
                        k >= w * h * 4,
                        p == k / 4,
                        w >= 1,
                ;
            }
            assert(new[k] == prev[k]);
        }
    }
}

/// The field of the first `n` balls depends only on those balls.
proof fn lemma_field_prefix(balls: Seq<Ball>, b: Ball, n: int, x: int, y: int)
    requires
        0 <= n <= balls.len(),
    ensures
        field(balls.push(b), n, x, y) == field(balls, n, x, y),
    decreases n,
{
    if n > 0 {
        lemma_field_prefix(balls, b, n - 1, x, y);
        assert(balls.push(b)[n - 1] == balls[n - 1]);
    }
}

/// The field is additive: adding ball `b` adds `256 r²` over one plus its
/// squared distance to `(x, y)`, rounded down, to the field of the others.
pub proof fn lemma_field_additive(balls: Seq<Ball>, b: Ball, x: int, y: int)
    ensures
        field(balls.push(b), balls.len() as int + 1, x, y) == field(balls, balls.len() as int, x, y) + (256
            * b.r * b.r) / ((x - b.cx) * (x - b.cx) + (y - b.cy) * (y - b.cy) + 1),
{
    lemma_field_prefix(balls, b, balls.len() as int, x, y);
    assert(balls.push(b)[balls.len() as int] == b);
    assert(b.r * b.r * 256 == 256 * b.r * b.r) by (nonlinear_arith);
}

/// Balls merge: a pixel at squared distance 4 from two balls of radius 2
/// lies inside the splash (field 408 > 256), though neither ball alone
/// reaches it (204 each).
pub proof fn lemma_two_balls_merge(b1: Ball, b2: Ball, x: int, y: int)
    requires
        b1.r == 2,
        b2.r == 2,
        (x - b1.cx) * (x - b1.cx) + (y - b1.cy) * (y - b1.cy) == 4,
        (x - b2.cx) * (x - b2.cx) + (y - b2.cy) * (y - b2.cy) == 4,
    ensures
        field(seq![b1], 1, x, y) == 204,
        field(seq![b1, b2], 2, x, y) == 408,
        field(seq![b1, b2], 2, x, y) > 256,
{
    lemma_field_additive(Seq::empty(), b1, x, y);
    assert(Seq::<Ball>::empty().push(b1) =~= seq![b1]);
    lemma_field_additive(seq![b1], b2, x, y);
    assert(seq![b1].push(b2) =~= seq![b1, b2]);
}

} // verus!
