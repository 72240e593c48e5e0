//! Hues, palettes and gradient definitions.
use vstd::prelude::*;
use crate::num::dec;
use crate::random::{rand_bool, rand_i32, rand_u16, rand_u8, rand_usize};
use crate::tmpl::{
    linear_gradient,
    linear_gradient_text,
    push_stop,
    radial_gradient,
    radial_gradient_text,
    stop_text,
};

verus! {

/// A hue in `[0, 360)` degrees.
pub open spec fn hue(h: int) -> int {
    h % 360
}

/// Normalizes a hue in degrees to `[0, 360)`.
pub fn hue_norm(h: i32) -> (r: u16)
    ensures
        r < 360,
        r as int == hue(h as int),
{
    let m = h % 360;
    if m < 0 {
        (m + 360) as u16
    } else {
        m as u16
    }
}

/// A colour in HSL form; only its hue varies in this library.
#[derive(Clone, Copy, Debug)]
pub struct Hsl {
    pub h: u16,
}

/// The palette starting at hue `h` that steps by `shift` degrees: colour
/// `k` has hue `h + k * shift`, normalized.
pub open spec fn palette_hues(h: int, shift: int, n: nat) -> Seq<Hsl> {
    Seq::new(n, |k: int| Hsl { h: hue(h + k * shift) as u16 })
}

/// The hue steps of the three colour schemes: analogous (20..40),
/// wide analogous (40..70) and triadic / complementary (120..180).
pub open spec fn scheme_shift(shift: int) -> bool {
    ||| 20 <= shift < 40
    ||| 40 <= shift < 70
    ||| 120 <= shift < 180
}

/// The `n` colours of the palette starting at hue `h` with step `shift`.
pub fn palette_from(h: u16, shift: i32, n: usize) -> (colors: Vec<Hsl>)
    requires
        i32::MIN <= h + n * shift <= i32::MAX,
    ensures
        colors@ == palette_hues(h as int, shift as int, n as nat),
{
    let mut colors: Vec<Hsl> = Vec::new();
    let mut current_h: i32 = h as i32;
    let mut k: usize = 0;
    while k < n
        invariant
            k <= n,
            i32::MIN <= h + n * shift <= i32::MAX,
            current_h == h + k * shift,
            colors@ == palette_hues(h as int, shift as int, k as nat),
        decreases n - k,
    {
        assert(h + (k + 1) * shift == h + k * shift + shift) by (nonlinear_arith);
        assert(i32::MIN <= h + (k + 1) * shift <= i32::MAX) by (nonlinear_arith)
            requires
                i32::MIN <= h + n * shift <= i32::MAX,
                k + 1 <= n,
                0 <= h,
                h <= 65535,
        {
            if shift >= 0 {
                assert((k + 1) * shift <= n * shift);
                assert(0 <= (k + 1) * shift);
            } else {
                assert((k + 1) * shift >= n * shift);
                assert(0 >= (k + 1) * shift);
            }
        }
        colors.push(Hsl { h: hue_norm(current_h) });
        current_h = current_h + shift;
        k = k + 1;
        assert(colors@ =~= palette_hues(h as int, shift as int, k as nat));
    }
    colors
}

/// Generates a harmonious colour palette: four to six colours, from a
/// random start hue, stepping by a random amount of one of the schemes.
pub fn palette() -> (colors: Vec<Hsl>)
    ensures
        4 <= colors.len() <= 6,
        exists|h: int, shift: int|
            0 <= h < 360 && scheme_shift(shift) && colors@ == #[trigger] palette_hues(
                h,
                shift,
                colors.len() as nat,
            ),
{
    let h = rand_u16(0, 359);
    let scheme = rand_u8(0, 2);
    let shift_deg = if scheme == 0 {
        rand_i32(20, 39)
    } else if scheme == 1 {
        rand_i32(40, 69)
    } else {
        rand_i32(120, 179)
    };
    let num_colors = rand_usize(4, 6);
    assert(0 <= num_colors * shift_deg <= 6 * 179) by (nonlinear_arith)
        requires
            4 <= num_colors <= 6,
            0 <= shift_deg <= 179,
    ;
    let colors = palette_from(h, shift_deg, num_colors);
    assert(colors@ == palette_hues(h as int, shift_deg as int, colors.len() as nat));
    colors
}

/// The texts of a list of strings.
pub open spec fn texts(v: Seq<String>) -> Seq<Seq<char>> {
    v.map_values(|t: String| t@)
}

/// The three stops of a smooth gradient: hues `h`, `h + 15`, `h + 30` at
/// 0%, 50% and 100%, lightness from `l_min` through the midpoint to `l_max`.
pub open spec fn smooth_stops(h: int, ss: int, l_min: int, l_max: int, op: Seq<char>) -> Seq<
    char,
> {
    stop_text("0.0"@, hue(h), ss, l_min, op) + stop_text("50.0"@, hue(h + 15), ss, (l_min + l_max)
        / 2, op) + stop_text("100.0"@, hue(h + 30), ss, l_max, op)
}

/// The first `n` bands of a banded gradient of `seg` bands: band `idx` is a
/// solid colour of hue `h + idx * (360 / seg) / 5` and lightness `lls[idx]`
/// from offset text `offsets[idx]` to `offsets[idx + 1]` (the written-out
/// percentages `idx * 100 / seg`).
pub open spec fn band_stops(
    h: int,
    ss: int,
    seg: int,
    lls: Seq<u8>,
    op: Seq<char>,
    offsets: Seq<Seq<char>>,
    n: nat,
) -> Seq<char>
    decreases n,
{
    if n == 0 {
        Seq::empty()
    } else {
        let idx = n - 1;
        let hh = hue(h + idx * (360int / seg) / 5);
        band_stops(h, ss, seg, lls, op, offsets, (n - 1) as nat) + stop_text(
            offsets[idx],
            hh,
            ss,
            lls[idx] as int,
            op,
        ) + stop_text(offsets[idx + 1], hh, ss, lls[idx] as int, op)
    }
}

/// The lightness of every band: even bands within 15 above `l_min`, odd
/// bands within 15 below `l_max`.
pub open spec fn band_lightness(lls: Seq<u8>, seg: int, l_min: int, l_max: int) -> bool {
    &&& lls.len() == seg
    &&& forall|idx: int|
        0 <= idx < seg ==> if idx % 2 == 0 {
            l_min <= #[trigger] lls[idx] <= l_min + 15
        } else {
            l_max - 15 <= lls[idx] <= l_max
        }
}

/// The stops of a gradient with saturation `ss`.
#[verifier::opaque]
pub open spec fn grad_stops(
    h: int,
    ss: int,
    l_min: int,
    l_max: int,
    op: Seq<char>,
    seg: int,
    lls: Seq<u8>,
    offsets: Seq<Seq<char>>,
) -> Seq<char> {
    if seg < 2 {
        smooth_stops(h, ss, l_min, l_max, op)
    } else {
        band_stops(h, ss, seg, lls, op, offsets, seg as nat)
    }
}

/// A gradient definition with the given random choices: radial with
/// centre/focus `pos` and radius `r`, or linear along the direction whose
/// start point is `lin[angle]` and whose end point mirrors it.
#[verifier::opaque]
pub open spec fn grad_text(
    id: Seq<char>,
    stops: Seq<char>,
    radial: bool,
    pos: Seq<i32>,
    r: int,
    angle: int,
    lin: Seq<(i32, i32)>,
) -> Seq<char> {
    if radial {
        radial_gradient_text(id, pos, r, stops)
    } else {
        let (x1, y1) = lin[angle];
        linear_gradient_text(id, x1 as int, y1 as int, 100 - x1, 100 - y1, stops)
    }
}

/// The random choices a gradient is drawn with.
pub struct GradChoice {
    /// Saturation, 75..=95.
    pub ss: u8,
    /// Band lightnesses (banded gradients only).
    pub lls: Vec<u8>,
    /// Radial or linear.
    pub radial: bool,
    /// Radial centre and focus, each 20..=80.
    pub pos: [i32; 4],
    /// Radial radius, 40..=100.
    pub r: i32,
    /// Linear direction in degrees, 0..360.
    pub angle: u16,
}

/// The choices are ones `grad` can draw.
pub open spec fn choice_ok(c: GradChoice, seg: int, l_min: int, l_max: int) -> bool {
    &&& 75 <= c.ss <= 95
    &&& (seg >= 2 ==> band_lightness(c.lls@, seg, l_min, l_max))
    &&& forall|i: int| 0 <= i < 4 ==> 20 <= #[trigger] c.pos@[i] <= 80
    &&& 40 <= c.r <= 100
    &&& c.angle < 360
}

/// The arguments `grad` accepts: a banded gradient needs lightness bounds
/// whose random ranges stay within `u8`, and the `seg + 1` offset texts of
/// its band edges.
pub open spec fn grad_args_ok(l_min: int, l_max: int, seg: int, n_offsets: int) -> bool {
    seg >= 2 ==> l_min <= 239 && 15 <= l_max <= 254 && n_offsets == seg + 1
}

/// Appends the gradient `id` drawn with the choices `c`: the stops of
/// hue `h`, lightness `l_min..l_max`, opacity text `op` and `seg` bands
/// (smooth when `seg < 2`), in a radial or linear gradient.
pub fn grad_with(
    s: &mut String,
    id: &str,
    h: u16,
    l_min: u8,
    l_max: u8,
    op: &str,
    seg: u8,
    offsets: &[String],
    c: &GradChoice,
    lin: &[(i32, i32)],
)
    requires
        grad_args_ok(l_min as int, l_max as int, seg as int, offsets@.len() as int),
        seg >= 2 ==> c.lls@.len() == seg,
        c.angle < 360,
        lin@.len() == 360,
        forall|i: int| 0 <= i < 360 ==> 0 <= (#[trigger] lin@[i]).0 <= 100 && 0 <= lin@[i].1 <= 100,
    ensures
        final(s)@ == old(s)@ + grad_text(
            id@,
            grad_stops(h as int, c.ss as int, l_min as int, l_max as int, op@, seg as int, c.lls@, texts(offsets@)),
            c.radial,
            c.pos@,
            c.r as int,
            c.angle as int,
            lin@,
        ),
{
    reveal(grad_stops);
    reveal(grad_text);
    let mut stops = String::new();
    if seg < 2 {
        push_stop(&mut stops, "0.0", hue_norm(h as i32), c.ss, l_min, op);
        push_stop(&mut stops, "50.0", hue_norm(h as i32 + 15), c.ss, ((l_min as u16 + l_max as u16) / 2) as u8, op);
        push_stop(&mut stops, "100.0", hue_norm(h as i32 + 30), c.ss, l_max, op);
        assert(stops@ =~= smooth_stops(h as int, c.ss as int, l_min as int, l_max as int, op@));
    } else {
        let mut idx: u8 = 0;
        while idx < seg
            invariant
                2 <= seg,
                idx <= seg,
                c.lls@.len() == seg,
                offsets@.len() == seg + 1,
                stops@ == band_stops(h as int, c.ss as int, seg as int, c.lls@, op@, texts(offsets@), idx as nat),
            decreases seg - idx,
        {
            let step = 360 / (seg as i32);
            assert(0 <= step <= 180) by (nonlinear_arith)
                requires
                    2 <= seg,
                    step == 360i32 / (seg as i32),
            ;
            assert(0 <= idx * step <= 360 * 255) by (nonlinear_arith)
                requires
                    0 <= idx < seg,
                    0 <= step <= 180,
                    seg <= 255,
            ;
            let hh = hue_norm(h as i32 + idx as i32 * step / 5);
            let ll = c.lls[idx as usize];
            let off1 = offsets[idx as usize].as_str();
            let off2 = offsets[idx as usize + 1].as_str();
            push_stop(&mut stops, off1, hh, c.ss, ll, op);
            push_stop(&mut stops, off2, hh, c.ss, ll, op);
            idx = idx + 1;
        }
    }
    if c.radial {
        radial_gradient(s, id, c.pos, c.r, stops.as_str());
    } else {
        let (x1, y1) = lin[c.angle as usize];
        linear_gradient(s, id, x1, y1, 100 - x1, 100 - y1, stops.as_str());
    }
}

/// Generates a gradient definition: appends the gradient `id` of hue `h`,
/// lightness `l_min..l_max`, opacity text `op` and `seg` bands (smooth when
/// `seg < 2`; band edges written as `offsets`), drawn with random
/// saturation, band lightnesses and shape.
pub fn grad(s: &mut String, id: &str, h: u16, l_min: u8, l_max: u8, op: &str, seg: u8, offsets: &[String], lin: &[(i32, i32)])
    requires
        grad_args_ok(l_min as int, l_max as int, seg as int, offsets@.len() as int),
        lin@.len() == 360,
        forall|i: int| 0 <= i < 360 ==> 0 <= (#[trigger] lin@[i]).0 <= 100 && 0 <= lin@[i].1 <= 100,
    ensures
        exists|c: GradChoice|
            #[trigger] choice_ok(c, seg as int, l_min as int, l_max as int) && final(s)@ == old(s)@
                + grad_text(
                id@,
                grad_stops(h as int, c.ss as int, l_min as int, l_max as int, op@, seg as int, c.lls@, texts(offsets@)),
                c.radial,
                c.pos@,
                c.r as int,
                c.angle as int,
                lin@,
            ),
{
    let ss = rand_u8(75, 95);
    let mut lls: Vec<u8> = Vec::new();
    if seg >= 2 {
        let mut idx: u8 = 0;
        while idx < seg
            invariant
                grad_args_ok(l_min as int, l_max as int, seg as int, offsets@.len() as int),
                2 <= seg,
                idx <= seg,
                lls@.len() == idx,
                forall|j: int|
                    0 <= j < idx ==> if j % 2 == 0 {
                        l_min <= #[trigger] lls@[j] <= l_min + 15
                    } else {
                        l_max - 15 <= lls@[j] <= l_max
                    },
            decreases seg - idx,
        {
            if idx % 2 == 0 {
                lls.push(rand_u8(l_min, l_min + 15));
            } else {
                lls.push(rand_u8(l_max - 15, l_max));
            }
            idx = idx + 1;
        }
    }
    let radial = rand_bool();
    let mut pos: [i32; 4] = [20, 20, 20, 20];
    let mut r: i32 = 40;
    let mut angle: u16 = 0;
    if radial {
        let p0 = rand_i32(20, 80);
        let p1 = rand_i32(20, 80);
        let p2 = rand_i32(20, 80);
        let p3 = rand_i32(20, 80);
        pos = [p0, p1, p2, p3];
        r = rand_i32(40, 100);
    } else {
        angle = rand_u16(0, 359);
    }
    let c = GradChoice { ss, lls, radial, pos, r, angle };
    assert(choice_ok(c, seg as int, l_min as int, l_max as int));
    grad_with(s, id, h, l_min, l_max, op, seg, offsets, &c, lin);
}

} // verus!
