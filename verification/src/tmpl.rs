//! SVG markup templates. Each template appends one fixed piece of markup to
//! a string, with the given numbers written in decimal and the given texts
//! copied verbatim; the contracts state the appended text exactly.
//!
//! Quantities that the scene computes in floating point (opacities,
//! gradient offsets, radii) reach these templates already written out as
//! text.
use vstd::prelude::*;
use crate::num::{dec, push_dec};

verus! {

pub const FILTER_P1: &'static str = r##"<filter id="f_noise" x="-50%" y="-50%" width="200%" height="200%"><feTurbulence type="fractalNoise" baseFrequency="0.65" numOctaves="3" seed=""##;

pub const FILTER_P2: &'static str = r##"" result="noise"/><feColorMatrix type="matrix" values="0 0 0 0 0 0 0 0 0 0 0 0 0 0 0 0 0 0 0.35 0"/><feComposite operator="in" in2="SourceGraphic"/><feBlend mode="multiply" in2="SourceGraphic"/></filter><filter id="f_distort" x="-50%" y="-50%" width="200%" height="200%"><feTurbulence type="turbulence" baseFrequency="0.015" numOctaves="2" seed=""##;

pub const FILTER_P3: &'static str = r##"" result="noise"/><feDisplacementMap in="SourceGraphic" in2="noise" scale="4" xChannelSelector="R" yChannelSelector="G"/></filter><filter id="f_glossy" x="-50%" y="-50%" width="200%" height="200%"><feGaussianBlur in="SourceAlpha" stdDeviation="1.5" result="blur"/><feSpecularLighting in="blur" surfaceScale="5" specularConstant="1" specularExponent="40" lighting-color="#fff" result="spec"><fePointLight x="-50" y="-50" z="200"/></feSpecularLighting><feComposite in="spec" in2="SourceAlpha" operator="in" result="spec"/><feComposite in="SourceGraphic" in2="spec" operator="arithmetic" k1="0" k2="1" k3="1" k4="0"/></filter><filter id="f_shadow" x="-50%" y="-50%" width="200%" height="200%"><feGaussianBlur in="SourceAlpha" stdDeviation="2" result="blur"/><feOffset dx="2" dy="2" result="offsetBlur"/><feFlood flood-color="#000" flood-opacity="0.3" result="color"/><feComposite in="color" in2="offsetBlur" operator="in" result="shadow"/><feMerge><feMergeNode in="shadow"/><feMergeNode in="SourceGraphic"/></feMerge></filter>"##;

/// The noise, distortion, gloss and shadow filter definitions, with both
/// turbulence filters seeded by `seed`.
pub open spec fn filters_text(seed: int) -> Seq<char> {
    FILTER_P1@ + dec(seed) + FILTER_P2@ + dec(seed) + FILTER_P3@
}

/// Appends `filters_text(seed)`.
pub fn filters(s: &mut String, seed: u32)
    ensures
        final(s)@ == old(s)@ + filters_text(seed as int),
{
    s.append(FILTER_P1);
    push_dec(s, seed as i128);
    s.append(FILTER_P2);
    push_dec(s, seed as i128);
    s.append(FILTER_P3);
}

/// A `<linearGradient>` from `(x1%, y1%)` to `(x2%, y2%)` holding `stops`.
pub open spec fn linear_gradient_text(
    id: Seq<char>,
    x1: int,
    y1: int,
    x2: int,
    y2: int,
    stops: Seq<char>,
) -> Seq<char> {
    "<linearGradient id=\""@ + id + "\" x1=\""@ + dec(x1) + "%\" y1=\""@ + dec(y1)
        + "%\" x2=\""@ + dec(x2) + "%\" y2=\""@ + dec(y2) + "%\">"@ + stops
        + "</linearGradient>"@
}

/// Appends `linear_gradient_text(..)`.
pub fn linear_gradient(s: &mut String, id: &str, x1: i32, y1: i32, x2: i32, y2: i32, stops: &str)
    ensures
        final(s)@ == old(s)@ + linear_gradient_text(
            id@,
            x1 as int,
            y1 as int,
            x2 as int,
            y2 as int,
            stops@,
        ),
{
    s.append("<linearGradient id=\"");
    s.append(id);
    s.append("\" x1=\"");
    push_dec(s, x1 as i128);
    s.append("%\" y1=\"");
    push_dec(s, y1 as i128);
    s.append("%\" x2=\"");
    push_dec(s, x2 as i128);
    s.append("%\" y2=\"");
    push_dec(s, y2 as i128);
    s.append("%\">");
    s.append(stops);
    s.append("</linearGradient>");
}

/// A `<radialGradient>` centred at `(pos[0]%, pos[1]%)` with radius `r%` and
/// focus `(pos[2]%, pos[3]%)`, holding `stops`.
pub open spec fn radial_gradient_text(id: Seq<char>, pos: Seq<i32>, r: int, stops: Seq<char>) -> Seq<
    char,
> {
    "<radialGradient id=\""@ + id + "\" cx=\""@ + dec(pos[0] as int) + "%\" cy=\""@ + dec(
        pos[1] as int,
    ) + "%\" r=\""@ + dec(r) + "%\" fx=\""@ + dec(pos[2] as int) + "%\" fy=\""@ + dec(
        pos[3] as int,
    ) + "%\">"@ + stops + "</radialGradient>"@
}

/// Appends `radial_gradient_text(..)`.
pub fn radial_gradient(s: &mut String, id: &str, pos: [i32; 4], r: i32, stops: &str)
    ensures
        final(s)@ == old(s)@ + radial_gradient_text(id@, pos@, r as int, stops@),
{
    s.append("<radialGradient id=\"");
    s.append(id);
    s.append("\" cx=\"");
    push_dec(s, pos[0] as i128);
    s.append("%\" cy=\"");
    push_dec(s, pos[1] as i128);
    s.append("%\" r=\"");
    push_dec(s, r as i128);
    s.append("%\" fx=\"");
    push_dec(s, pos[2] as i128);
    s.append("%\" fy=\"");
    push_dec(s, pos[3] as i128);
    s.append("%\">");
    s.append(stops);
    s.append("</radialGradient>");
}

/// The tiling `<pattern id="p">` of `path`, filled with gradient `bg2`.
pub open spec fn pattern_text(rotate: int, size: int, path: Seq<char>) -> Seq<char> {
    "<pattern id=\"p\" patternTransform=\"scale(0.8) rotate("@ + dec(rotate) + ")\" width=\""@
        + dec(size) + "\" height=\""@ + dec(size)
        + "\" patternUnits=\"userSpaceOnUse\"><path fill=\"url(#bg2)\" d=\""@ + path
        + "\"/></pattern>"@
}

/// Appends `pattern_text(..)`.
pub fn pattern(s: &mut String, rotate: u16, size: u32, path: &str)
    ensures
        final(s)@ == old(s)@ + pattern_text(rotate as int, size as int, path@),
{
    s.append("<pattern id=\"p\" patternTransform=\"scale(0.8) rotate(");
    push_dec(s, rotate as i128);
    s.append(")\" width=\"");
    push_dec(s, size as i128);
    s.append("\" height=\"");
    push_dec(s, size as i128);
    s.append("\" patternUnits=\"userSpaceOnUse\"><path fill=\"url(#bg2)\" d=\"");
    s.append(path);
    s.append("\"/></pattern>");
}

/// The opacity of the pattern overlay: `"0.2"` on a dark scene, `"0.1"` on a
/// light one.
pub open spec fn overlay_opacity(is_dark: bool) -> Seq<char> {
    if is_dark {
        "0.2"@
    } else {
        "0.1"@
    }
}

/// The two background rectangles: the `bg0` gradient, then the pattern `p`
/// at `overlay_opacity(is_dark)`.
pub open spec fn bg_rect_text(w: int, h: int, is_dark: bool) -> Seq<char> {
    "<rect width=\""@ + dec(w) + "\" height=\""@ + dec(h)
        + "\" fill=\"url(#bg0)\" stroke=\"none\"/><rect width=\""@ + dec(w) + "\" height=\""@
        + dec(h) + "\" fill=\"url(#p)\" fill-opacity=\""@ + overlay_opacity(is_dark)
        + "\" stroke=\"none\"/>"@
}

/// Appends `bg_rect_text(..)`.
pub fn bg_rect(s: &mut String, w: u32, h: u32, is_dark: bool)
    ensures
        final(s)@ == old(s)@ + bg_rect_text(w as int, h as int, is_dark),
{
    let op = if is_dark {
        "0.2"
    } else {
        "0.1"
    };
    s.append("<rect width=\"");
    push_dec(s, w as i128);
    s.append("\" height=\"");
    push_dec(s, h as i128);
    s.append("\" fill=\"url(#bg0)\" stroke=\"none\"/><rect width=\"");
    push_dec(s, w as i128);
    s.append("\" height=\"");
    push_dec(s, h as i128);
    s.append("\" fill=\"url(#p)\" fill-opacity=\"");
    s.append(op);
    s.append("\" stroke=\"none\"/>");
}

/// The parameters of one wave path.
pub struct WaveArgs<'a> {
    /// Path data.
    pub d: &'a str,
    /// Fill opacity, written out.
    pub op: &'a str,
    /// Stroke paint.
    pub stroke: &'a str,
    /// Stroke width.
    pub sw: u32,
    /// Rotation in degrees about `(cx, cy)`.
    pub rotate: i32,
    pub cx: u32,
    pub cy: u32,
}

/// A distorted `bg1`-filled wave path.
pub open spec fn wave_text(a: WaveArgs) -> Seq<char> {
    "<path d=\""@ + a.d@ + "\" filter=\"url(#f_distort)\" fill=\"url(#bg1)\" fill-opacity=\""@
        + a.op@ + "\" stroke=\""@ + a.stroke@ + "\" stroke-width=\""@ + dec(a.sw as int)
        + "\" transform=\"rotate("@ + dec(a.rotate as int) + " "@ + dec(a.cx as int) + " "@ + dec(
        a.cy as int,
    ) + ")\"/>"@
}

/// Appends `wave_text(a)`.
pub fn wave(s: &mut String, a: WaveArgs)
    ensures
        final(s)@ == old(s)@ + wave_text(a),
{
    s.append("<path d=\"");
    s.append(a.d);
    s.append("\" filter=\"url(#f_distort)\" fill=\"url(#bg1)\" fill-opacity=\"");
    s.append(a.op);
    s.append("\" stroke=\"");
    s.append(a.stroke);
    s.append("\" stroke-width=\"");
    push_dec(s, a.sw as i128);
    s.append("\" transform=\"rotate(");
    push_dec(s, a.rotate as i128);
    s.append(" ");
    push_dec(s, a.cx as i128);
    s.append(" ");
    push_dec(s, a.cy as i128);
    s.append(")\"/>");
}

/// The parameters of one icon group.
pub struct IconArgs<'a> {
    /// The outer filter id.
    pub filter: &'a str,
    /// Translation `x`, `y` and rotation in degrees.
    pub pos: [i32; 3],
    /// The rotation centre (written out), and the skews in degrees along
    /// x and y.
    pub transform: (&'a str, i32, i32),
    /// Rendered width and height.
    pub sz: u32,
    /// Opacity, written out.
    pub op: &'a str,
    /// The icon's view box.
    pub view: &'a str,
    /// The gradient id for fill and stroke.
    pub grad: &'a str,
    /// The icon's path markup.
    pub path: &'a str,
}

/// A filtered, translated, rotated and skewed icon drawn at size `sz`.
pub open spec fn icon_group_text(a: IconArgs) -> Seq<char> {
    "<g filter=\"url(#"@ + a.filter@ + ")\"><g filter=\"url(#f_distort)\" transform=\"translate("@
        + dec(a.pos[0] as int) + ","@ + dec(a.pos[1] as int) + ") rotate("@ + dec(
        a.pos[2] as int,
    ) + ","@ + a.transform.0@ + ","@ + a.transform.0@ + ") skewX("@ + dec(a.transform.1 as int)
        + ") skewY("@ + dec(a.transform.2 as int) + ")\"><svg viewBox=\""@ + a.view@
        + "\" width=\""@ + dec(a.sz as int) + "\" height=\""@ + dec(a.sz as int)
        + "\" opacity=\""@ + a.op@ + "\" overflow=\"visible\"><g fill=\"url(#"@ + a.grad@
        + ")\" stroke=\"url(#"@ + a.grad@ + ")\">"@ + a.path@ + "</g></svg></g></g>"@
}

/// Appends `icon_group_text(a)`.
#[verifier::rlimit(80)]
pub fn icon_group(s: &mut String, a: IconArgs)
    ensures
        final(s)@ == old(s)@ + icon_group_text(a),
{
    s.append("<g filter=\"url(#");
    s.append(a.filter);
    s.append(")\"><g filter=\"url(#f_distort)\" transform=\"translate(");
    push_dec(s, a.pos[0] as i128);
    s.append(",");
    push_dec(s, a.pos[1] as i128);
    s.append(") rotate(");
    push_dec(s, a.pos[2] as i128);
    s.append(",");
    s.append(a.transform.0);
    s.append(",");
    s.append(a.transform.0);
    s.append(") skewX(");
    push_dec(s, a.transform.1 as i128);
    s.append(") skewY(");
    push_dec(s, a.transform.2 as i128);
    s.append(")\"><svg viewBox=\"");
    s.append(a.view);
    s.append("\" width=\"");
    push_dec(s, a.sz as i128);
    s.append("\" height=\"");
    push_dec(s, a.sz as i128);
    s.append("\" opacity=\"");
    s.append(a.op);
    s.append("\" overflow=\"visible\"><g fill=\"url(#");
    s.append(a.grad);
    s.append(")\" stroke=\"url(#");
    s.append(a.grad);
    s.append(")\">");
    s.append(a.path);
    s.append("</g></svg></g></g>");
}

/// The whole document: a `w`×`h` SVG holding `defs`, and `body` under the
/// noise filter.
pub open spec fn svg_text(w: int, h: int, defs: Seq<char>, body: Seq<char>) -> Seq<char> {
    "<svg width=\""@ + dec(w) + "\" height=\""@ + dec(h) + "\" viewBox=\"0 0 "@ + dec(w) + " "@
        + dec(h) + "\" xmlns=\"http://www.w3.org/2000/svg\"><defs>"@ + defs
        + "</defs><g filter=\"url(#f_noise)\">"@ + body + "</g></svg>"@
}

/// Appends `svg_text(..)`.
pub fn svg(s: &mut String, w: u32, h: u32, defs: &str, body: &str)
    ensures
        final(s)@ == old(s)@ + svg_text(w as int, h as int, defs@, body@),
{
    s.append("<svg width=\"");
    push_dec(s, w as i128);
    s.append("\" height=\"");
    push_dec(s, h as i128);
    s.append("\" viewBox=\"0 0 ");
    push_dec(s, w as i128);
    s.append(" ");
    push_dec(s, h as i128);
    s.append("\" xmlns=\"http://www.w3.org/2000/svg\"><defs>");
    s.append(defs);
    s.append("</defs><g filter=\"url(#f_noise)\">");
    s.append(body);
    s.append("</g></svg>");
}

/// A gradient `<stop>` at `offset%` of colour `hsl(h, ss%, ll%)`.
pub open spec fn stop_text(offset: Seq<char>, h: int, ss: int, ll: int, op: Seq<char>) -> Seq<
    char,
> {
    "<stop offset=\""@ + offset + "%\" stop-color=\"hsl("@ + dec(h) + ","@ + dec(ss) + "%,"@ + dec(
        ll,
    ) + "%)\" stop-opacity=\""@ + op + "\"/>"@
}

/// Appends `stop_text(..)`.
pub fn push_stop(s: &mut String, offset: &str, h: u16, ss: u8, ll: u8, op: &str)
    ensures
        final(s)@ == old(s)@ + stop_text(offset@, h as int, ss as int, ll as int, op@),
{
    s.append("<stop offset=\"");
    s.append(offset);
    s.append("%\" stop-color=\"hsl(");
    push_dec(s, h as i128);
    s.append(",");
    push_dec(s, ss as i128);
    s.append("%,");
    push_dec(s, ll as i128);
    s.append("%)\" stop-opacity=\"");
    s.append(op);
    s.append("\"/>");
}

/// A `<circle>` at `(x, y)`.
pub open spec fn circle_text(x: int, y: int, r: Seq<char>, color: Seq<char>, op: Seq<char>) -> Seq<
    char,
> {
    "<circle cx=\""@ + dec(x) + "\" cy=\""@ + dec(y) + "\" r=\""@ + r + "\" fill=\""@ + color
        + "\" opacity=\""@ + op + "\"/>"@
}

/// Appends `circle_text(..)`.
pub fn circle(s: &mut String, x: u32, y: u32, r: &str, color: &str, op: &str)
    ensures
        final(s)@ == old(s)@ + circle_text(x as int, y as int, r@, color@, op@),
{
    s.append("<circle cx=\"");
    push_dec(s, x as i128);
    s.append("\" cy=\"");
    push_dec(s, y as i128);
    s.append("\" r=\"");
    s.append(r);
    s.append("\" fill=\"");
    s.append(color);
    s.append("\" opacity=\"");
    s.append(op);
    s.append("\"/>");
}

} // verus!
