//! Composition of the CAPTCHA scene: palette and background, the choice of
//! icons, their placement and their markup.
//!
//! The scene is built in stages. `Scene::new` lays the background;
//! decorative layers (waves, ribbons, blobs), whose geometry is computed in
//! floating point, are appended to `defs` and `body` by the caller;
//! `Scene::add_icon` then places each icon; `Scene::finish` assembles the
//! document.
use vstd::prelude::*;
use crate::color::{grad, choice_ok, grad_stops, grad_text, hue_norm, palette, palette_hues, scheme_shift, texts, GradChoice, Hsl, hue};
use crate::num::{dec, decimal, push_dec};
use crate::random::{rand_i32, rand_u32, rand_usize};
use crate::tmpl::{bg_rect, bg_rect_text, svg, svg_text};
use crate::verify::fits;

verus! {

/// One icon of the icon set: its raw SVG source (handed to the user as
/// the challenge) and the path markup drawn in the scene, in a 1024×1024
/// coordinate system.
pub struct SvgIcon {
    pub raw: String,
    pub path: String,
}

/// The generated CAPTCHA containing SVG and validation data.
pub struct Captcha {
    /// The SVG string.
    pub svg: String,
    /// The generated WebP image buffer.
    pub webp: Vec<u8>,
    /// The selected icons.
    pub icons: Vec<String>,
    /// The positions of the icons in the format `(x, y, size)`.
    pub positions: Vec<(i32, i32, u32)>,
}

/// Smallest and largest icon size in pixels.
pub const ICON_MIN: u32 = 34;
pub const ICON_MAX: u32 = 44;

/// Margin kept between an icon and the canvas border.
pub const MARGIN: i32 = 20;

/// Placement attempts before an icon is placed even though it overlaps.
pub const TRIES: u32 = 50;

/// The largest canvas side the scene accepts (squared distances between
/// icons are computed in `i32`).
pub const MAX_SIDE: u32 = 32767;

/// The exclusive upper bound of an icon's coordinate on a side of length
/// `side`: `side - size - 20`, but at least 21.
pub open spec fn coord_end(side: int, size: int) -> int {
    if side - size - MARGIN > MARGIN + 1 {
        side - size - MARGIN
    } else {
        MARGIN + 1
    }
}

/// An icon placement lies on the canvas as the scene places icons: size in
/// `34..=44`, each coordinate from 20 up to (excluding) `coord_end`.
pub open spec fn placed_ok(p: (i32, i32, u32), w: int, h: int) -> bool {
    &&& ICON_MIN <= p.2 <= ICON_MAX
    &&& MARGIN <= p.0 < coord_end(w, p.2 as int)
    &&& MARGIN <= p.1 < coord_end(h, p.2 as int)
}

/// All entries are below `n` and no two are equal.
pub open spec fn distinct_below(s: Seq<usize>, n: int) -> bool {
    &&& forall|i: int| 0 <= i < s.len() ==> #[trigger] s[i] < n
    &&& forall|i: int, j: int| 0 <= i < j < s.len() ==> #[trigger] s[i] != #[trigger] s[j]
}

/// Two placements are too close: their corners are nearer than half the
/// sum of their sizes plus 10 pixels.
pub open spec fn collide(p: (i32, i32, u32), o: (i32, i32, u32)) -> bool {
    let dx = p.0 - o.0;
    let dy = p.1 - o.1;
    let safe = (p.2 + o.2) / 2 + 10;
    dx * dx + dy * dy < safe * safe
}

/// `p` is too close to one of the placements in `placed`.
pub open spec fn collides_any(p: (i32, i32, u32), placed: Seq<(i32, i32, u32)>) -> bool {
    exists|k: int| 0 <= k < placed.len() && collide(p, #[trigger] placed[k])
}

/// Whether `p` is too close to any of `placed`.
pub fn collides_with_any(p: (i32, i32, u32), placed: &Vec<(i32, i32, u32)>, w: u32, h: u32) -> (r: bool)
    requires
        w <= MAX_SIDE,
        h <= MAX_SIDE,
        placed_ok(p, w as int, h as int),
        forall|k: int| 0 <= k < placed@.len() ==> placed_ok(#[trigger] placed@[k], w as int, h as int),
    ensures
        r == collides_any(p, placed@),
{
    let mut k: usize = 0;
    while k < placed.len()
        invariant
            k <= placed@.len(),
            w <= MAX_SIDE,
            h <= MAX_SIDE,
            placed_ok(p, w as int, h as int),
            forall|j: int| 0 <= j < placed@.len() ==> placed_ok(#[trigger] placed@[j], w as int, h as int),
            forall|j: int| 0 <= j < k ==> !collide(p, #[trigger] placed@[j]),
        decreases placed@.len() - k,
    {
        let (ox, oy, osz) = placed[k];
        assert(placed_ok(placed@[k as int], w as int, h as int));
        let dx = p.0 - ox;
        let dy = p.1 - oy;
        assert(0 <= dx * dx <= 1073676289 && 0 <= dy * dy <= 1073676289) by (nonlinear_arith)
            requires
                -32767 <= dx <= 32767,
                -32767 <= dy <= 32767,
        ;
        let dist_sq = dx * dx + dy * dy;
        let safe_dist = ((p.2 + osz) / 2 + 10) as i32;
        assert(safe_dist * safe_dist <= 54 * 54) by (nonlinear_arith)
            requires
                0 <= safe_dist <= 54,
        ;
        if dist_sq < safe_dist * safe_dist {
            assert(collide(p, placed@[k as int]));
            return true;
        }
        k = k + 1;
    }
    false
}

/// `p` is what the placement draws give against the icons `placed`: some
/// 1 to 50 draws on the canvas, all of `p`'s size, every one but the last
/// too close to an icon already placed, the last being `p`; fewer than 50
/// draws means `p` is clear of every placed icon.
pub open spec fn drawn_placement(p: (i32, i32, u32), placed: Seq<(i32, i32, u32)>, w: int, h: int) -> bool {
    exists|cands: Seq<(i32, i32, u32)>|
        1 <= cands.len() <= TRIES && #[trigger] cands.last() == p
            && (forall|j: int| 0 <= j < cands.len() ==> placed_ok(#[trigger] cands[j], w, h) && cands[j].2 == p.2)
            && (forall|j: int| 0 <= j < cands.len() - 1 ==> collides_any(#[trigger] cands[j], placed))
            && (cands.len() < TRIES ==> !collides_any(p, placed))
}

/// Draws a position for an icon of size `sz` on a `w`×`h` canvas: up to 50
/// uniform draws, keeping the first that is not too close to any of
/// `placed` (or the last draw). The draws made are `cands`: every one but
/// the last collides, and the last is kept; fewer than 50 draws means the
/// kept one collides with nothing.
pub fn place(w: u32, h: u32, sz: u32, placed: &Vec<(i32, i32, u32)>) -> (p: (i32, i32, u32))
    requires
        w <= MAX_SIDE,
        h <= MAX_SIDE,
        ICON_MIN <= sz <= ICON_MAX,
        forall|k: int| 0 <= k < placed@.len() ==> placed_ok(#[trigger] placed@[k], w as int, h as int),
    ensures
        p.2 == sz,
        placed_ok(p, w as int, h as int),
        drawn_placement(p, placed@, w as int, h as int),
{
    let x_end = if w as i32 - sz as i32 - MARGIN > MARGIN + 1 {
        w as i32 - sz as i32 - MARGIN
    } else {
        MARGIN + 1
    };
    let y_end = if h as i32 - sz as i32 - MARGIN > MARGIN + 1 {
        h as i32 - sz as i32 - MARGIN
    } else {
        MARGIN + 1
    };
    let mut p = (rand_i32(MARGIN, x_end - 1), rand_i32(MARGIN, y_end - 1), sz);
    let ghost mut cands: Seq<(i32, i32, u32)> = seq![p];
    let mut tries: u32 = 1;
    loop
        invariant
            w <= MAX_SIDE,
            h <= MAX_SIDE,
            ICON_MIN <= sz <= ICON_MAX,
            x_end == coord_end(w as int, sz as int),
            y_end == coord_end(h as int, sz as int),
            forall|k: int| 0 <= k < placed@.len() ==> placed_ok(#[trigger] placed@[k], w as int, h as int),
            placed_ok(p, w as int, h as int),
            p.2 == sz,
            1 <= tries <= TRIES,
            cands.len() == tries,
            cands.last() == p,
            forall|j: int| 0 <= j < cands.len() ==> placed_ok(#[trigger] cands[j], w as int, h as int) && cands[j].2 == sz,
            forall|j: int| 0 <= j < cands.len() - 1 ==> collides_any(#[trigger] cands[j], placed@),
        ensures
            1 <= cands.len() <= TRIES,
            cands.last() == p,
            placed_ok(p, w as int, h as int),
            p.2 == sz,
            forall|j: int| 0 <= j < cands.len() ==> placed_ok(#[trigger] cands[j], w as int, h as int) && cands[j].2 == sz,
            forall|j: int| 0 <= j < cands.len() - 1 ==> collides_any(#[trigger] cands[j], placed@),
            cands.len() < TRIES ==> !collides_any(p, placed@),
        decreases TRIES - tries,
    {
        if tries >= TRIES {
            break;
        }
        if !collides_with_any(p, placed, w, h) {
            break;
        }
        let ghost prev = cands;
        p = (rand_i32(MARGIN, x_end - 1), rand_i32(MARGIN, y_end - 1), sz);
        proof {
            cands = cands.push(p);
            assert forall|j: int| 0 <= j < cands.len() - 1 implies collides_any(#[trigger] cands[j], placed@) by {
                if j < prev.len() - 1 {
                    assert(cands[j] == prev[j]);
                } else {
                    assert(cands[j] == prev.last());
                }
            }
        }
        tries = tries + 1;
    }
    p
}

/// Picks `count` distinct icon indices below `n`, uniformly: each draw
/// takes one of the indices not drawn yet.
pub fn pick_distinct(count: usize, n: usize) -> (order: Vec<usize>)
    requires
        count <= n,
    ensures
        order@.len() == count,
        distinct_below(order@, n as int),
{
    let mut pool: Vec<usize> = Vec::new();
    let mut k: usize = 0;
    while k < n
        invariant
            k <= n,
            pool@.len() == k,
            forall|i: int| 0 <= i < k ==> #[trigger] pool@[i] == i,
        decreases n - k,
    {
        pool.push(k);
        k = k + 1;
    }
    let mut order: Vec<usize> = Vec::new();
    while order.len() < count
        invariant
            count <= n,
            order@.len() <= count,
            order@.len() + pool@.len() == n,
            distinct_below(order@, n as int),
            distinct_below(pool@, n as int),
            forall|i: int, j: int|
                0 <= i < order@.len() && 0 <= j < pool@.len() ==> #[trigger] order@[i]
                    != #[trigger] pool@[j],
        decreases count - order@.len(),
    {
        let j = rand_usize(0, pool.len() - 1);
        let ghost old_pool = pool@;
        let x = pool.remove(j);
        assert(forall|t: int| 0 <= t < pool@.len() ==> #[trigger] pool@[t] == if t < j {
            old_pool[t]
        } else {
            old_pool[t + 1]
        });
        order.push(x);
    }
    order
}

/// The id of the gradient of the `i`-th icon: `g` followed by `i`.
pub open spec fn grad_id(i: int) -> Seq<char> {
    "g"@ + dec(i)
}

/// The drop-shadow filter applied to the icons, tinted with hue `h`.
pub open spec fn shadow_text(h: int) -> Seq<char> {
    "<filter id=\"shadow\" x=\"-20%\" y=\"-20%\" width=\"140%\" height=\"140%\"><feDropShadow dx=\"2\" dy=\"5\" stdDeviation=\"3\" flood-opacity=\"0.35\" flood-color=\"hsl("@
        + dec(h) + ", 60%, 20%)"@ + "\"/></filter>"@
}

/// The markup of one icon: translated to `(px, py)`, scaled from its
/// 1024-unit source to its size (`scale`, written out), rotated by `rot`
/// degrees about the source centre, at opacity `op`, painted with gradient
/// `gid` under the drop shadow.
pub open spec fn icon_text(
    px: int,
    py: int,
    scale: Seq<char>,
    rot: int,
    op: Seq<char>,
    gid: Seq<char>,
    path: Seq<char>,
) -> Seq<char> {
    "<g transform=\"translate("@ + dec(px) + ","@ + dec(py) + ") scale("@ + scale
        + ") rotate("@ + dec(rot) + ",512,512)\" opacity=\""@ + op + "\">"@
        + "<g fill=\"url(#"@ + gid + ")\" stroke=\"url(#"@ + gid
        + ")\" filter=\"url(#shadow)\">"@ + path + "</g></g>"@
}

/// The text of a gradient drawn by `grad` with choices `c`, opacity `1.0`.
pub open spec fn solid_grad(id: Seq<char>, h: int, l_min: int, l_max: int, seg: int, offsets: Seq<Seq<char>>, c: GradChoice, lin: Seq<(i32, i32)>) -> Seq<char> {
    grad_text(id, grad_stops(h, c.ss as int, l_min, l_max, "1.0"@, seg, c.lls@, offsets), c.radial, c.pos@, c.r as int, c.angle as int, lin)
}

/// The band edges of a two-band gradient: 0%, 50% and 100%, as the float
/// formatter writes them.
pub open spec fn halves() -> Seq<Seq<char>> {
    seq!["0.0"@, "50.0"@, "100.0"@]
}

/// The written-out band edges of a two-band gradient.
fn band_offsets() -> (v: Vec<String>)
    ensures
        v@.len() == 3,
        texts(v@) == halves(),
{
    let mut a = String::new();
    a.append("0.0");
    let mut b = String::new();
    b.append("50.0");
    let mut c = String::new();
    c.append("100.0");
    let mut v: Vec<String> = Vec::new();
    v.push(a);
    v.push(b);
    v.push(c);
    assert(texts(v@) =~= halves());
    v
}

/// The background definitions: gradients `bg0` (hue `h`, lightness
/// 91..96), `bg1` (`h + 20`, 90..105), `bg2` (`h - 20`, 90..100), then the
/// shadow filter of hue `sh`.
pub open spec fn background_defs(h: int, c0: GradChoice, c1: GradChoice, c2: GradChoice, sh: int, lin: Seq<(i32, i32)>) -> Seq<char> {
    solid_grad("bg0"@, h, 91, 96, 0, Seq::empty(), c0, lin) + solid_grad("bg1"@, hue(h + 20), 90, 105, 0, Seq::empty(), c1, lin)
        + solid_grad("bg2"@, hue(h - 20), 90, 100, 0, Seq::empty(), c2, lin) + shadow_text(sh)
}

/// A table of linear-gradient start points, one per degree, each within
/// the 0..=100 percent box.
pub open spec fn lin_ok(lin: Seq<(i32, i32)>) -> bool {
    &&& lin.len() == 360
    &&& forall|i: int| 0 <= i < 360 ==> 0 <= (#[trigger] lin[i]).0 <= 100 && 0 <= lin[i].1 <= 100
}

/// Draws the background definitions of a scene with palette `pal`.
fn background(pal: &Vec<Hsl>, lin: &[(i32, i32)]) -> (defs: String)
    requires
        1 <= pal@.len(),
        forall|k: int| 0 <= k < pal@.len() ==> (#[trigger] pal@[k]).h < 360,
        lin_ok(lin@),
    ensures
        exists|c0: GradChoice, c1: GradChoice, c2: GradChoice, k: int|
            choice_ok(c0, 0, 91, 96) && choice_ok(c1, 0, 90, 105) && choice_ok(c2, 0, 90, 100)
                && 0 <= k < pal@.len() && defs@ == #[trigger] background_defs(
                pal@[0].h as int,
                c0,
                c1,
                c2,
                pal@[k].h as int,
                lin@,
            ),
{
    let bg_h = pal[0].h;
    let mut defs = String::new();
    let none: Vec<String> = Vec::new();
    assert(texts(none@) =~= Seq::<Seq<char>>::empty());
    grad(&mut defs, "bg0", bg_h, 91, 96, "1.0", 0, none.as_slice(), lin);
    let ghost d0 = defs@;
    grad(&mut defs, "bg1", hue_norm(bg_h as i32 + 20), 90, 105, "1.0", 0, none.as_slice(), lin);
    let ghost d1 = defs@;
    grad(&mut defs, "bg2", hue_norm(bg_h as i32 - 20), 90, 100, "1.0", 0, none.as_slice(), lin);
    let ghost d2 = defs@;
    let k = rand_usize(0, pal.len() - 1);
    let shadow_h = pal[k].h;
    defs.append("<filter id=\"shadow\" x=\"-20%\" y=\"-20%\" width=\"140%\" height=\"140%\"><feDropShadow dx=\"2\" dy=\"5\" stdDeviation=\"3\" flood-opacity=\"0.35\" flood-color=\"hsl(");
    push_dec(&mut defs, shadow_h as i128);
    defs.append(", 60%, 20%)");
    defs.append("\"/></filter>");
    proof {
        let c0 = choose|c: GradChoice| #[trigger] choice_ok(c, 0, 91, 96) && d0 == Seq::<char>::empty() + grad_text("bg0"@, grad_stops(bg_h as int, c.ss as int, 91, 96, "1.0"@, 0, c.lls@, texts(none@)), c.radial, c.pos@, c.r as int, c.angle as int, lin@);
        let c1 = choose|c: GradChoice| #[trigger] choice_ok(c, 0, 90, 105) && d1 == d0 + grad_text("bg1"@, grad_stops(hue(bg_h + 20) as int, c.ss as int, 90, 105, "1.0"@, 0, c.lls@, texts(none@)), c.radial, c.pos@, c.r as int, c.angle as int, lin@);
        let c2 = choose|c: GradChoice| #[trigger] choice_ok(c, 0, 90, 100) && d2 == d1 + grad_text("bg2"@, grad_stops(hue(bg_h - 20) as int, c.ss as int, 90, 100, "1.0"@, 0, c.lls@, texts(none@)), c.radial, c.pos@, c.r as int, c.angle as int, lin@);
        assert(defs@ =~= background_defs(bg_h as int, c0, c1, c2, shadow_h as int, lin@));
    }

    defs
}

/// The `i`-th icon was drawn with gradient choices `c`, hue offset `dh`
/// from palette hue `ph` and rotation `rot`: its gradient `grad_id(i)`
/// (lightness 20..35, two bands, opacity 1.0) was appended to the
/// definitions and its markup at placement `p` to the body.
pub open spec fn icon_drawn(
    defs0: Seq<char>,
    defs1: Seq<char>,
    body0: Seq<char>,
    body1: Seq<char>,
    i: int,
    ph: int,
    p: (i32, i32, u32),
    scale: Seq<char>,
    op: Seq<char>,
    path: Seq<char>,
    lin: Seq<(i32, i32)>,
    c: GradChoice,
    dh: int,
    rot: int,
) -> bool {
    &&& choice_ok(c, 2, 20, 35)
    &&& -15 <= dh <= 15
    &&& -20 <= rot <= 20
    &&& defs1 == defs0 + solid_grad(grad_id(i), hue(ph + dh), 20, 35, 2, halves(), c, lin)
    &&& body1 == body0 + icon_text(p.0 as int, p.1 as int, scale, rot, op, grad_id(i), path)
}

/// Appends `icon_text(..)`.
pub fn push_icon_markup(s: &mut String, px: i32, py: i32, scale: &str, rot: i32, op: &str, gid: &str, path: &str)
    ensures
        final(s)@ == old(s)@ + icon_text(px as int, py as int, scale@, rot as int, op@, gid@, path@),
{
    s.append("<g transform=\"translate(");
    push_dec(s, px as i128);
    s.append(",");
    push_dec(s, py as i128);
    s.append(") scale(");
    s.append(scale);
    s.append(") rotate(");
    push_dec(s, rot as i128);
    s.append(",512,512)\" opacity=\"");
    s.append(op);
    s.append("\">");
    s.append("<g fill=\"url(#");
    s.append(gid);
    s.append(")\" stroke=\"url(#");
    s.append(gid);
    s.append(")\" filter=\"url(#shadow)\">");
    s.append(path);
    s.append("</g></g>");
}

/// Icon `k` was drawn with some gradient choices, hue offset and rotation
/// (see `icon_drawn`), taking the definitions from `defs0` to `defs1` and
/// the body from `body0` to `body1`.
pub open spec fn icon_drawn_some(
    defs0: Seq<char>,
    defs1: Seq<char>,
    body0: Seq<char>,
    body1: Seq<char>,
    k: int,
    ph: int,
    p: (i32, i32, u32),
    scale: Seq<char>,
    op: Seq<char>,
    path: Seq<char>,
    lin: Seq<(i32, i32)>,
) -> bool {
    exists|c: GradChoice, dh: int, rot: int|
        #[trigger] icon_drawn(defs0, defs1, body0, body1, k, ph, p, scale, op, path, lin, c, dh, rot)
}

/// Icons `start..end` were drawn in order: `defs[j]` and `bodies[j]` are
/// the definitions and the body before icon `start + j`, the last entries
/// those after icon `end - 1`; icon `k` (icon `order[k]` of `icons`) sits
/// at `placed[k]` with palette hue `pal[k % |pal|]`, the scale text of its
/// size and opacity text `ops[k]`.
pub open spec fn icons_drawn(
    defs: Seq<Seq<char>>,
    bodies: Seq<Seq<char>>,
    start: int,
    end: int,
    pal: Seq<Hsl>,
    placed: Seq<(i32, i32, u32)>,
    order: Seq<usize>,
    icons: Seq<SvgIcon>,
    scales: Seq<String>,
    ops: Seq<String>,
    lin: Seq<(i32, i32)>,
) -> bool {
    &&& defs.len() == end - start + 1
    &&& bodies.len() == end - start + 1
    &&& forall|k: int|
        start <= k < end ==> #[trigger] icon_drawn_some(
            defs[k - start],
            defs[k - start + 1],
            bodies[k - start],
            bodies[k - start + 1],
            k,
            pal[k % pal.len() as int].h as int,
            placed[k],
            scales[placed[k].2 - ICON_MIN]@,
            ops[k]@,
            icons[order[k] as int].path@,
            lin,
        )
}

/// The scene under construction.
pub struct Scene {
    pub w: u32,
    pub h: u32,
    /// Number of target icons.
    pub num: usize,
    /// Size of the icon set the indices in `order` refer to.
    pub n_icons: usize,
    pub palette: Vec<Hsl>,
    pub defs: String,
    pub body: String,
    /// The icon indices drawn, targets first.
    pub order: Vec<usize>,
    /// Placements of the icons drawn so far.
    pub all_positions: Vec<(i32, i32, u32)>,
    /// Placements of the target icons drawn so far.
    pub positions: Vec<(i32, i32, u32)>,
    /// Raw sources of the target icons drawn so far.
    pub icons: Vec<String>,
}

impl Scene {
    /// The scene's invariant: canvas within bounds; a palette of four to
    /// six colours; three to six distractors beside the targets; distinct
    /// icon indices; every placement on the canvas; targets are the first
    /// placements.
    pub open spec fn wf(&self) -> bool {
        &&& self.w <= MAX_SIDE
        &&& self.h <= MAX_SIDE
        &&& 4 <= self.palette@.len() <= 6
        &&& forall|k: int| 0 <= k < self.palette@.len() ==> (#[trigger] self.palette@[k]).h < 360
        &&& self.num + 3 <= self.order@.len() <= self.num + 6
        &&& distinct_below(self.order@, self.n_icons as int)
        &&& self.all_positions@.len() <= self.order@.len()
        &&& forall|k: int|
            0 <= k < self.all_positions@.len() ==> placed_ok(
                #[trigger] self.all_positions@[k],
                self.w as int,
                self.h as int,
            )
        &&& self.positions@ == self.all_positions@.take(
            if self.all_positions@.len() < self.num {
                self.all_positions@.len() as int
            } else {
                self.num as int
            },
        )
        &&& self.icons@.len() == self.positions@.len()
    }

    /// Starts a `w`×`h` scene with `num` targets drawn from an icon set of
    /// `n_icons` icons: draws the palette, the number of distractors (3 to
    /// 6) and the icons, and lays the background.
    pub fn new(w: u32, h: u32, num: usize, n_icons: usize, lin: &[(i32, i32)]) -> (s: Scene)
        requires
            w <= MAX_SIDE,
            h <= MAX_SIDE,
            num + 6 <= n_icons,
            lin_ok(lin@),
        ensures
            s.wf(),
            s.w == w,
            s.h == h,
            s.num == num,
            s.n_icons == n_icons,
            s.all_positions@.len() == 0,
            exists|hh: int, shift: int|
                0 <= hh < 360 && scheme_shift(shift) && s.palette@ == #[trigger] palette_hues(
                    hh,
                    shift,
                    s.palette@.len() as nat,
                ),
            exists|c0: GradChoice, c1: GradChoice, c2: GradChoice, k: int|
                choice_ok(c0, 0, 91, 96) && choice_ok(c1, 0, 90, 105) && choice_ok(c2, 0, 90, 100)
                    && 0 <= k < s.palette@.len() && s.defs@ == #[trigger] background_defs(
                    s.palette@[0].h as int,
                    c0,
                    c1,
                    c2,
                    s.palette@[k].h as int,
                    lin@,
                ),
            s.body@ == bg_rect_text(w as int, h as int, false),
    {
        let pal = palette();
        let ghost (hh, shift) = choose|hh: int, shift: int|
            0 <= hh < 360 && scheme_shift(shift) && pal@ == #[trigger] palette_hues(
                hh,
                shift,
                pal@.len() as nat,
            );
        proof {
            assert(pal@ == palette_hues(hh, shift, pal@.len() as nat));
            assert forall|k: int| 0 <= k < pal@.len() implies (#[trigger] pal@[k]).h < 360 by {
                assert(pal@[k] == palette_hues(hh, shift, pal@.len() as nat)[k]);
            }
        }
        let total = num + rand_usize(3, 6);
        let order = pick_distinct(total, n_icons);

        let defs = background(&pal, lin);
        let ghost (c0, c1, c2, k) = choose|c0: GradChoice, c1: GradChoice, c2: GradChoice, k: int|
            choice_ok(c0, 0, 91, 96) && choice_ok(c1, 0, 90, 105) && choice_ok(c2, 0, 90, 100)
                && 0 <= k < pal@.len() && defs@ == #[trigger] background_defs(
                pal@[0].h as int,
                c0,
                c1,
                c2,
                pal@[k].h as int,
                lin@,
            );

        let mut body = String::new();
        bg_rect(&mut body, w, h, false);

        let all_positions: Vec<(i32, i32, u32)> = Vec::new();
        assert(order@.len() == total);
        assert(defs@ == background_defs(pal@[0].h as int, c0, c1, c2, pal@[k].h as int, lin@));
        let positions: Vec<(i32, i32, u32)> = Vec::new();
        assert(positions@ =~= all_positions@.take(0));
        let sc = Scene {
            w,
            h,
            num,
            n_icons,
            palette: pal,
            defs,
            body,
            order,
            all_positions,
            positions,
            icons: Vec::new(),
        };
        assert(sc.defs@ == background_defs(sc.palette@[0].h as int, c0, c1, c2, sc.palette@[k].h as int, lin@));
        sc
    }
}

impl Scene {
    /// Places the next icon of the scene, `order[i]` where `i` is the
    /// number of icons placed so far: draws its size (34..=44), its
    /// position, its gradient (hue within 15 degrees of palette colour
    /// `i`) and its rotation (within 20 degrees), and appends its markup;
    /// `scales[size - 34]` is the written-out scale of a source icon to
    /// that size and `op` the written-out opacity. A target icon (`i <
    /// num`) is also recorded in `positions` and `icons`.
    pub fn add_icon(&mut self, icons: &[SvgIcon], scales: &[String], op: &str, lin: &[(i32, i32)])
        requires
            old(self).wf(),
            old(self).all_positions@.len() < old(self).order@.len(),
            icons@.len() == old(self).n_icons,
            scales@.len() == 11,
            lin_ok(lin@),
        ensures
            final(self).wf(),
            final(self).w == old(self).w,
            final(self).h == old(self).h,
            final(self).num == old(self).num,
            final(self).n_icons == old(self).n_icons,
            final(self).palette@ == old(self).palette@,
            final(self).order@ == old(self).order@,
            ({
                let i = old(self).all_positions@.len() as int;
                let p = final(self).all_positions@[i];
                let icon = icons@[old(self).order@[i] as int];
                &&& final(self).all_positions@ == old(self).all_positions@.push(p)
                &&& drawn_placement(p, old(self).all_positions@, old(self).w as int, old(self).h as int)
                &&& (i < old(self).num ==> final(self).icons@.len() == old(self).icons@.len() + 1
                    && final(self).icons@.take(i) == old(self).icons@
                    && final(self).icons@[i]@ == icon.raw@)
                &&& (i >= old(self).num ==> final(self).icons@ == old(self).icons@)
                &&& exists|c: GradChoice, dh: int, rot: int|
                    #[trigger] icon_drawn(
                        old(self).defs@,
                        final(self).defs@,
                        old(self).body@,
                        final(self).body@,
                        i,
                        old(self).palette@[i % old(self).palette@.len() as int].h as int,
                        p,
                        scales@[p.2 - ICON_MIN]@,
                        op@,
                        icon.path@,
                        lin@,
                        c,
                        dh,
                        rot,
                    )
            }),
    {
        let i = self.all_positions.len();
        let icon = &icons[self.order[i]];
        let icon_sz = rand_u32(ICON_MIN, ICON_MAX);
        let p = place(self.w, self.h, icon_sz, &self.all_positions);
        let ghost old_all = self.all_positions@;
        let ghost old_icons = self.icons@;
        self.all_positions.push(p);
        if i < self.num {
            self.positions.push(p);
            self.icons.push(icon.raw.clone());
        }
        assert(self.positions@ =~= self.all_positions@.take(
            if self.all_positions@.len() < self.num {
                self.all_positions@.len() as int
            } else {
                self.num as int
            },
        ));
        assert(i < self.num ==> self.icons@.take(i as int) =~= old_icons);

        let color = self.palette[i % self.palette.len()];
        let mut gid = String::new();
        gid.append("g");
        push_dec(&mut gid, i as i128);
        assert(gid@ =~= grad_id(i as int));
        let dh = rand_i32(-15, 15);
        let hh = hue_norm(color.h as i32 + dh);
        let ghost d0 = self.defs@;
        let bands = band_offsets();
        grad(&mut self.defs, gid.as_str(), hh, 20, 35, "1.0", 2, bands.as_slice(), lin);

        let rot = rand_i32(-20, 20);
        let scale = &scales[(icon_sz - ICON_MIN) as usize];
        let ghost b0 = self.body@;
        push_icon_markup(&mut self.body, p.0, p.1, scale.as_str(), rot, op, gid.as_str(), icon.path.as_str());
        proof {
            let c = choose|c: GradChoice| #[trigger] choice_ok(c, 2, 20, 35) && self.defs@ == d0 + grad_text(gid@, grad_stops(hh as int, c.ss as int, 20, 35, "1.0"@, 2, c.lls@, texts(bands@)), c.radial, c.pos@, c.r as int, c.angle as int, lin@);
            assert(self.defs@ == d0 + solid_grad(grad_id(i as int), hue(color.h + dh), 20, 35, 2, halves(), c, lin@));
            assert(icon_drawn(d0, self.defs@, old(self).body@, self.body@, i as int, color.h as int, p, scales@[p.2 - ICON_MIN]@, op@, icon.path@, lin@, c, dh as int, rot as int));
            let ii = old(self).all_positions@.len() as int;
            assert(icon_drawn(
                old(self).defs@,
                self.defs@,
                old(self).body@,
                self.body@,
                ii,
                old(self).palette@[ii % old(self).palette@.len() as int].h as int,
                self.all_positions@[ii],
                scales@[self.all_positions@[ii].2 - ICON_MIN]@,
                op@,
                icons@[old(self).order@[ii] as int].path@,
                lin@,
                c,
                dh as int,
                rot as int,
            ));
        }
    }

    /// Places every remaining icon, the `k`-th at opacity `ops[k]`.
    pub fn place_all(&mut self, icons: &[SvgIcon], scales: &[String], ops: &[String], lin: &[(i32, i32)])
        requires
            old(self).wf(),
            icons@.len() == old(self).n_icons,
            scales@.len() == 11,
            ops@.len() == old(self).order@.len(),
            lin_ok(lin@),
        ensures
            final(self).wf(),
            final(self).w == old(self).w,
            final(self).h == old(self).h,
            final(self).num == old(self).num,
            final(self).n_icons == old(self).n_icons,
            final(self).palette@ == old(self).palette@,
            final(self).order@ == old(self).order@,
            final(self).all_positions@.len() == final(self).order@.len(),
            final(self).all_positions@.take(old(self).all_positions@.len() as int)
                == old(self).all_positions@,
            exists|ds: Seq<Seq<char>>, bs: Seq<Seq<char>>|
                #[trigger] icons_drawn(
                    ds,
                    bs,
                    old(self).all_positions@.len() as int,
                    final(self).all_positions@.len() as int,
                    old(self).palette@,
                    final(self).all_positions@,
                    old(self).order@,
                    icons@,
                    scales@,
                    ops@,
                    lin@,
                ) && ds[0] == old(self).defs@ && bs[0] == old(self).body@ && ds.last() == final(self).defs@
                    && bs.last() == final(self).body@,
            forall|k: int|
                old(self).all_positions@.len() <= k < final(self).all_positions@.len() ==> drawn_placement(
                    #[trigger] final(self).all_positions@[k],
                    final(self).all_positions@.take(k),
                    old(self).w as int,
                    old(self).h as int,
                ),
            final(self).icons@.take(old(self).icons@.len() as int) == old(self).icons@,
            forall|k: int|
                old(self).icons@.len() <= k < final(self).icons@.len() ==> (#[trigger] final(self).icons@[k])@
                    == icons@[old(self).order@[k] as int].raw@,
    {
        let ghost start = self.all_positions@;
        let ghost start_icons = self.icons@;
        let ghost mut ds: Seq<Seq<char>> = seq![self.defs@];
        let ghost mut bs: Seq<Seq<char>> = seq![self.body@];
        while self.all_positions.len() < self.order.len()
            invariant
                self.wf(),
                self.w == old(self).w,
                self.h == old(self).h,
                self.num == old(self).num,
                self.n_icons == old(self).n_icons,
                self.palette@ == old(self).palette@,
                self.order@ == old(self).order@,
                icons@.len() == self.n_icons,
                scales@.len() == 11,
                ops@.len() == self.order@.len(),
                lin_ok(lin@),
                start == old(self).all_positions@,
                start.len() <= self.all_positions@.len(),
                self.all_positions@.take(start.len() as int) == start,
                icons_drawn(
                    ds,
                    bs,
                    start.len() as int,
                    self.all_positions@.len() as int,
                    self.palette@,
                    self.all_positions@,
                    self.order@,
                    icons@,
                    scales@,
                    ops@,
                    lin@,
                ),
                ds[0] == old(self).defs@,
                bs[0] == old(self).body@,
                ds.last() == self.defs@,
                bs.last() == self.body@,
                forall|j: int|
                    start.len() <= j < self.all_positions@.len() ==> drawn_placement(
                        #[trigger] self.all_positions@[j],
                        self.all_positions@.take(j),
                        self.w as int,
                        self.h as int,
                    ),
                start_icons == old(self).icons@,
                start_icons.len() <= self.icons@.len(),
                self.icons@.take(start_icons.len() as int) == start_icons,
                forall|j: int|
                    start_icons.len() <= j < self.icons@.len() ==> (#[trigger] self.icons@[j])@
                        == icons@[self.order@[j] as int].raw@,
            decreases self.order@.len() - self.all_positions@.len(),
        {
            let k = self.all_positions.len();
            let ghost before = self.all_positions@;
            let ghost (ds0, bs0) = (ds, bs);
            let ghost icons0 = self.icons@;
            self.add_icon(icons, scales, ops[k].as_str(), lin);
            proof {
                assert forall|j: int|
                    start.len() <= j < self.all_positions@.len() implies drawn_placement(
                        #[trigger] self.all_positions@[j],
                        self.all_positions@.take(j),
                        self.w as int,
                        self.h as int,
                    ) by {
                    if j < k {
                        assert(self.all_positions@[j] == before[j]);
                        assert(self.all_positions@.take(j) =~= before.take(j));
                    } else {
                        assert(self.all_positions@.take(j) =~= before);
                    }
                }
                if k < self.num {
                    assert(icons0.len() == k);
                    assert(self.icons@.take(start_icons.len() as int) =~= icons0.take(start_icons.len() as int));
                    assert forall|j: int|
                        start_icons.len() <= j < self.icons@.len() implies (#[trigger] self.icons@[j])@
                            == icons@[self.order@[j] as int].raw@ by {
                        if j < k {
                            assert(self.icons@[j] == icons0[j]);
                        }
                    }
                }
            }
            assert(self.all_positions@.take(start.len() as int) =~= before.take(start.len() as int));
            proof {
                ds = ds.push(self.defs@);
                bs = bs.push(self.body@);
                let s0 = start.len() as int;
                assert forall|j: int| s0 <= j < self.all_positions@.len() implies #[trigger] icon_drawn_some(
                    ds[j - s0],
                    ds[j - s0 + 1],
                    bs[j - s0],
                    bs[j - s0 + 1],
                    j,
                    self.palette@[j % self.palette@.len() as int].h as int,
                    self.all_positions@[j],
                    scales@[self.all_positions@[j].2 - ICON_MIN]@,
                    ops@[j]@,
                    icons@[self.order@[j] as int].path@,
                    lin@,
                ) by {
                    if j < k {
                        assert(self.all_positions@[j] == before[j]);
                        assert(icon_drawn_some(
                            ds0[j - s0],
                            ds0[j - s0 + 1],
                            bs0[j - s0],
                            bs0[j - s0 + 1],
                            j,
                            self.palette@[j % self.palette@.len() as int].h as int,
                            before[j],
                            scales@[before[j].2 - ICON_MIN]@,
                            ops@[j]@,
                            icons@[self.order@[j] as int].path@,
                            lin@,
                        ));
                    }
                }
            }
        }
    }

    /// Assembles the document: the `w`×`h` SVG with the scene's definitions
    /// and body, and the target icons and their positions.
    pub fn finish(self) -> (c: Captcha)
        requires
            self.wf(),
        ensures
            c.svg@ == svg_text(self.w as int, self.h as int, self.defs@, self.body@),
            c.webp@.len() == 0,
            c.icons@ == self.icons@,
            c.positions@ == self.positions@,
    {
        let mut out = String::new();
        svg(&mut out, self.w, self.h, self.defs.as_str(), self.body.as_str());
        Captcha { svg: out, webp: Vec::new(), icons: self.icons, positions: self.positions }
    }
}

/// Every target of a scene lies on the canvas well inside `i32`, so the
/// click check accepts it; in particular clicking the centre of every
/// target, in order, is accepted.
pub proof fn lemma_targets_clickable(s: Scene)
    requires
        s.wf(),
    ensures
        forall|k: int| 0 <= k < s.positions@.len() ==> fits(#[trigger] s.positions@[k]),
        crate::verify::accepted(
            s.positions@.map_values(|p: (i32, i32, u32)| crate::verify::centre_click(p)),
            s.positions@,
        ),
{
    assert forall|k: int| 0 <= k < s.positions@.len() implies fits(#[trigger] s.positions@[k]) by {
        assert(s.positions@[k] == s.all_positions@[k]);
        assert(placed_ok(s.all_positions@[k], s.w as int, s.h as int));
    }
    crate::verify::lemma_centre_clicks_accepted(s.positions@);
}

/// Once every icon is placed, the scene has exactly `num` targets, each
/// with its raw icon, and `3..=6` distractors; no icon is drawn twice.
pub proof fn lemma_complete_scene(s: Scene)
    requires
        s.wf(),
        s.all_positions@.len() == s.order@.len(),
    ensures
        s.positions@.len() == s.num,
        s.icons@.len() == s.num,
        3 <= s.all_positions@.len() - s.num <= 6,
        forall|i: int, j: int| 0 <= i < j < s.order@.len() ==> s.order@[i] != s.order@[j],
{
}

/// No target of a scene comes within `PADDING` of the canvas corner, so an
/// answer whose first click is at `(0, 0)` is refused.
pub proof fn lemma_corner_click_refused(s: Scene, clicks: Seq<(i32, i32)>)
    requires
        s.wf(),
        0 < clicks.len(),
        0 < s.positions@.len(),
        clicks[0] == (0i32, 0i32),
    ensures
        !crate::verify::accepted(clicks, s.positions@),
{
    assert(s.positions@[0] == s.all_positions@[0]);
    assert(placed_ok(s.all_positions@[0], s.w as int, s.h as int));
    crate::verify::lemma_far_click_refused(clicks, s.positions@, 0);
}

/// Two placements collide exactly when the squared distance between their
/// corners is below the square of half their summed sizes plus 10 pixels:
/// a candidate that close to an icon already placed is drawn again.
pub proof fn lemma_collision_rule(p: (i32, i32, u32), o: (i32, i32, u32))
    ensures
        collides_any(p, seq![o]) <==> (p.0 - o.0) * (p.0 - o.0) + (p.1 - o.1) * (p.1 - o.1) < ((p.2
            + o.2) / 2 + 10) * ((p.2 + o.2) / 2 + 10),
{
    let placed = seq![o];
    if collides_any(p, placed) {
        let k = choose|k: int| 0 <= k < placed.len() && collide(p, #[trigger] placed[k]);
        assert(k == 0);
    }
    if (p.0 - o.0) * (p.0 - o.0) + (p.1 - o.1) * (p.1 - o.1) < ((p.2 + o.2) / 2 + 10) * ((p.2 + o.2) / 2 + 10) {
        assert(collide(p, placed[0]));
    }
}

} // verus!
