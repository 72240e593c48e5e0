//! Holographic prism ribbons: glass ribbons of varying thickness cross
//! the image along sine waves; inside a ribbon the picture is displaced
//! (more towards its edges), split into colour channels, blended over the
//! pixel beneath and highlighted.
use vstd::prelude::*;
use crate::filter::{alpha_kept, tail_kept};
use crate::filter::lemma_pixel_index;
use crate::random::{rng_i32, rng_u32, rng_usize};

verus! {

/// The random parameters of one ribbon.
#[derive(Clone, Copy)]
pub struct Ribbon {
    /// Wave amplitude (over 256 of the sine table).
    pub amp: i32,
    pub freq: usize,
    pub phase: usize,
    /// Opacity of the displaced picture, out of 256.
    pub alpha: u32,
    pub thickness_base: i32,
    pub thickness_amp: i32,
    pub thickness_freq: usize,
    pub thickness_phase: usize,
    /// Height of the ribbon's axis at the left edge.
    pub base_y: i32,
    /// Slope of the axis, in 1/256 pixel per pixel.
    pub slope_fp: i32,
    /// Displacement at the edges, in pixels.
    pub refract_x: i32,
    pub refract_y: i32,
}

/// `v / 256` rounded down (an arithmetic shift right by 8).
pub open spec fn fdiv256(v: int) -> int {
    if v >= 0 { v / 256 } else { -((-v + 255) / 256) }
}

/// `v / 256` rounded down.
fn shr8(v: i32) -> (r: i32)
    ensures
        r == fdiv256(v as int),
{
    if v >= 0 { v / 256 } else { (-((-(v as i64) + 255) / 256)) as i32 }
}

/// The height of ribbon `rb`'s centre line at column `x`: its tilted axis
/// plus the sine wave.
pub open spec fn centre(rb: Ribbon, lut: Seq<i32>, x: int) -> int {
    rb.base_y + fdiv256(x * rb.slope_fp) + fdiv256(lut[(x * rb.freq + rb.phase) % 256] * rb.amp)
}

/// The half thickness of ribbon `rb` at column `x` (at least 1).
pub open spec fn half_thickness(rb: Ribbon, lut: Seq<i32>, x: int) -> int {
    let t = rb.thickness_base + fdiv256(lut[(x * rb.thickness_freq + rb.thickness_phase) % 256] * rb.thickness_amp);
    if t > 1 { t } else { 1 }
}

/// Pixel `(x, y)` lies within ribbon `rb`.
pub open spec fn in_ribbon(rb: Ribbon, lut: Seq<i32>, x: int, y: int) -> bool {
    centre(rb, lut, x) - half_thickness(rb, lut, x) <= y < centre(rb, lut, x) + half_thickness(rb, lut, x)
}

/// A sine table of 256 entries scaled by 256.
pub open spec fn lut_ok(lut: Seq<i32>) -> bool {
    lut.len() == 256 && forall|i: int| 0 <= i < 256 ==> -256 <= #[trigger] lut[i] <= 256
}

/// Entry `i` of the ribbons' sine table: 256 times the sine of `i / 256`
/// of a turn, cut toward zero, as `f32` arithmetic computes it.
pub open spec fn sine_at(i: u8) -> i32 {
    match i {
        0 => 0i32,
        1 => 6i32,
        2 => 12i32,
        3 => 18i32,
        4 => 25i32,
        5 => 31i32,
        6 => 37i32,
        7 => 43i32,
        8 => 49i32,
        9 => 56i32,
        10 => 62i32,
        11 => 68i32,
        12 => 74i32,
        13 => 80i32,
        14 => 86i32,
        15 => 92i32,
        16 => 97i32,
        17 => 103i32,
        18 => 109i32,
        19 => 115i32,
        20 => 120i32,
        21 => 126i32,
        22 => 131i32,
        23 => 136i32,
        24 => 142i32,
        25 => 147i32,
        26 => 152i32,
        27 => 157i32,
        28 => 162i32,
        29 => 167i32,
        30 => 171i32,
        31 => 176i32,
        32 => 181i32,
        33 => 185i32,
        34 => 189i32,
        35 => 193i32,
        36 => 197i32,
        37 => 201i32,
        38 => 205i32,
        39 => 209i32,
        40 => 212i32,
        41 => 216i32,
        42 => 219i32,
        43 => 222i32,
        44 => 225i32,
        45 => 228i32,
        46 => 231i32,
        47 => 234i32,
        48 => 236i32,
        49 => 238i32,
        50 => 241i32,
        51 => 243i32,
        52 => 244i32,
        53 => 246i32,
        54 => 248i32,
        55 => 249i32,
        56 => 251i32,
        57 => 252i32,
        58 => 253i32,
        59 => 254i32,
        60 => 254i32,
        61 => 255i32,
        62 => 255i32,
        63 => 255i32,
        64 => 256i32,
        65 => 255i32,
        66 => 255i32,
        67 => 255i32,
        68 => 254i32,
        69 => 254i32,
        70 => 253i32,
        71 => 252i32,
        72 => 251i32,
        73 => 249i32,
        74 => 248i32,
        75 => 246i32,
        76 => 244i32,
        77 => 243i32,
        78 => 241i32,
        79 => 238i32,
        80 => 236i32,
        81 => 234i32,
        82 => 231i32,
        83 => 228i32,
        84 => 225i32,
        85 => 222i32,
        86 => 219i32,
        87 => 216i32,
        88 => 212i32,
        89 => 209i32,
        90 => 205i32,
        91 => 201i32,
        92 => 197i32,
        93 => 193i32,
        94 => 189i32,
        95 => 185i32,
        96 => 181i32,
        97 => 176i32,
        98 => 171i32,
        99 => 167i32,
        100 => 162i32,
        101 => 157i32,
        102 => 152i32,
        103 => 147i32,
        104 => 142i32,
        105 => 136i32,
        106 => 131i32,
        107 => 126i32,
        108 => 120i32,
        109 => 115i32,
        110 => 109i32,
        111 => 103i32,
        112 => 97i32,
        113 => 92i32,
        114 => 86i32,
        115 => 80i32,
        116 => 74i32,
        117 => 68i32,
        118 => 62i32,
        119 => 56i32,
        120 => 49i32,
        121 => 43i32,
        122 => 37i32,
        123 => 31i32,
        124 => 25i32,
        125 => 18i32,
        126 => 12i32,
        127 => 6i32,
        128 => 0i32,
        129 => -6i32,
        130 => -12i32,
        131 => -18i32,
        132 => -25i32,
        133 => -31i32,
        134 => -37i32,
        135 => -43i32,
        136 => -49i32,
        137 => -56i32,
        138 => -62i32,
        139 => -68i32,
        140 => -74i32,
        141 => -80i32,
        142 => -86i32,
        143 => -92i32,
        144 => -97i32,
        145 => -103i32,
        146 => -109i32,
        147 => -115i32,
        148 => -120i32,
        149 => -126i32,
        150 => -131i32,
        151 => -136i32,
        152 => -142i32,
        153 => -147i32,
        154 => -152i32,
        155 => -157i32,
        156 => -162i32,
        157 => -167i32,
        158 => -171i32,
        159 => -176i32,
        160 => -181i32,
        161 => -185i32,
        162 => -189i32,
        163 => -193i32,
        164 => -197i32,
        165 => -201i32,
        166 => -205i32,
        167 => -209i32,
        168 => -212i32,
        169 => -216i32,
        170 => -219i32,
        171 => -222i32,
        172 => -225i32,
        173 => -228i32,
        174 => -231i32,
        175 => -234i32,
        176 => -236i32,
        177 => -238i32,
        178 => -241i32,
        179 => -243i32,
        180 => -244i32,
        181 => -246i32,
        182 => -248i32,
        183 => -249i32,
        184 => -251i32,
        185 => -252i32,
        186 => -253i32,
        187 => -254i32,
        188 => -254i32,
        189 => -255i32,
        190 => -255i32,
        191 => -255i32,
        192 => -256i32,
        193 => -255i32,
        194 => -255i32,
        195 => -255i32,
        196 => -254i32,
        197 => -254i32,
        198 => -253i32,
        199 => -252i32,
        200 => -251i32,
        201 => -249i32,
        202 => -248i32,
        203 => -246i32,
        204 => -244i32,
        205 => -243i32,
        206 => -241i32,
        207 => -238i32,
        208 => -236i32,
        209 => -234i32,
        210 => -231i32,
        211 => -228i32,
        212 => -225i32,
        213 => -222i32,
        214 => -219i32,
        215 => -216i32,
        216 => -212i32,
        217 => -209i32,
        218 => -205i32,
        219 => -201i32,
        220 => -197i32,
        221 => -193i32,
        222 => -189i32,
        223 => -185i32,
        224 => -181i32,
        225 => -176i32,
        226 => -171i32,
        227 => -167i32,
        228 => -162i32,
        229 => -157i32,
        230 => -152i32,
        231 => -147i32,
        232 => -142i32,
        233 => -136i32,
        234 => -131i32,
        235 => -126i32,
        236 => -120i32,
        237 => -115i32,
        238 => -109i32,
        239 => -103i32,
        240 => -97i32,
        241 => -92i32,
        242 => -86i32,
        243 => -80i32,
        244 => -74i32,
        245 => -68i32,
        246 => -62i32,
        247 => -56i32,
        248 => -49i32,
        249 => -43i32,
        250 => -37i32,
        251 => -31i32,
        252 => -25i32,
        253 => -18i32,
        254 => -12i32,
        _ => -6i32,
    }
}

/// The ribbons' sine table.
pub open spec fn sine_table() -> Seq<i32> {
    Seq::new(256, |i: int| sine_at(i as u8))
}

/// Entry `i` of the ribbons' sine table.
fn sine_entry(i: usize) -> (v: i32)
    requires
        i < 256,
    ensures
        v == sine_at(i as u8),
{
    match i {
        0 => 0i32,
        1 => 6i32,
        2 => 12i32,
        3 => 18i32,
        4 => 25i32,
        5 => 31i32,
        6 => 37i32,
        7 => 43i32,
        8 => 49i32,
        9 => 56i32,
        10 => 62i32,
        11 => 68i32,
        12 => 74i32,
        13 => 80i32,
        14 => 86i32,
        15 => 92i32,
        16 => 97i32,
        17 => 103i32,
        18 => 109i32,
        19 => 115i32,
        20 => 120i32,
        21 => 126i32,
        22 => 131i32,
        23 => 136i32,
        24 => 142i32,
        25 => 147i32,
        26 => 152i32,
        27 => 157i32,
        28 => 162i32,
        29 => 167i32,
        30 => 171i32,
        31 => 176i32,
        32 => 181i32,
        33 => 185i32,
        34 => 189i32,
        35 => 193i32,
        36 => 197i32,
        37 => 201i32,
        38 => 205i32,
        39 => 209i32,
        40 => 212i32,
        41 => 216i32,
        42 => 219i32,
        43 => 222i32,
        44 => 225i32,
        45 => 228i32,
        46 => 231i32,
        47 => 234i32,
        48 => 236i32,
        49 => 238i32,
        50 => 241i32,
        51 => 243i32,
        52 => 244i32,
        53 => 246i32,
        54 => 248i32,
        55 => 249i32,
        56 => 251i32,
        57 => 252i32,
        58 => 253i32,
        59 => 254i32,
        60 => 254i32,
        61 => 255i32,
        62 => 255i32,
        63 => 255i32,
        64 => 256i32,
        65 => 255i32,
        66 => 255i32,
        67 => 255i32,
        68 => 254i32,
        69 => 254i32,
        70 => 253i32,
        71 => 252i32,
        72 => 251i32,
        73 => 249i32,
        74 => 248i32,
        75 => 246i32,
        76 => 244i32,
        77 => 243i32,
        78 => 241i32,
        79 => 238i32,
        80 => 236i32,
        81 => 234i32,
        82 => 231i32,
        83 => 228i32,
        84 => 225i32,
        85 => 222i32,
        86 => 219i32,
        87 => 216i32,
        88 => 212i32,
        89 => 209i32,
        90 => 205i32,
        91 => 201i32,
        92 => 197i32,
        93 => 193i32,
        94 => 189i32,
        95 => 185i32,
        96 => 181i32,
        97 => 176i32,
        98 => 171i32,
        99 => 167i32,
        100 => 162i32,
        101 => 157i32,
        102 => 152i32,
        103 => 147i32,
        104 => 142i32,
        105 => 136i32,
        106 => 131i32,
        107 => 126i32,
        108 => 120i32,
        109 => 115i32,
        110 => 109i32,
        111 => 103i32,
        112 => 97i32,
        113 => 92i32,
        114 => 86i32,
        115 => 80i32,
        116 => 74i32,
        117 => 68i32,
        118 => 62i32,
        119 => 56i32,
        120 => 49i32,
        121 => 43i32,
        122 => 37i32,
        123 => 31i32,
        124 => 25i32,
        125 => 18i32,
        126 => 12i32,
        127 => 6i32,
        128 => 0i32,
        129 => -6i32,
        130 => -12i32,
        131 => -18i32,
        132 => -25i32,
        133 => -31i32,
        134 => -37i32,
        135 => -43i32,
        136 => -49i32,
        137 => -56i32,
        138 => -62i32,
        139 => -68i32,
        140 => -74i32,
        141 => -80i32,
        142 => -86i32,
        143 => -92i32,
        144 => -97i32,
        145 => -103i32,
        146 => -109i32,
        147 => -115i32,
        148 => -120i32,
        149 => -126i32,
        150 => -131i32,
        151 => -136i32,
        152 => -142i32,
        153 => -147i32,
        154 => -152i32,
        155 => -157i32,
        156 => -162i32,
        157 => -167i32,
        158 => -171i32,
        159 => -176i32,
        160 => -181i32,
        161 => -185i32,
        162 => -189i32,
        163 => -193i32,
        164 => -197i32,
        165 => -201i32,
        166 => -205i32,
        167 => -209i32,
        168 => -212i32,
        169 => -216i32,
        170 => -219i32,
        171 => -222i32,
        172 => -225i32,
        173 => -228i32,
        174 => -231i32,
        175 => -234i32,
        176 => -236i32,
        177 => -238i32,
        178 => -241i32,
        179 => -243i32,
        180 => -244i32,
        181 => -246i32,
        182 => -248i32,
        183 => -249i32,
        184 => -251i32,
        185 => -252i32,
        186 => -253i32,
        187 => -254i32,
        188 => -254i32,
        189 => -255i32,
        190 => -255i32,
        191 => -255i32,
        192 => -256i32,
        193 => -255i32,
        194 => -255i32,
        195 => -255i32,
        196 => -254i32,
        197 => -254i32,
        198 => -253i32,
        199 => -252i32,
        200 => -251i32,
        201 => -249i32,
        202 => -248i32,
        203 => -246i32,
        204 => -244i32,
        205 => -243i32,
        206 => -241i32,
        207 => -238i32,
        208 => -236i32,
        209 => -234i32,
        210 => -231i32,
        211 => -228i32,
        212 => -225i32,
        213 => -222i32,
        214 => -219i32,
        215 => -216i32,
        216 => -212i32,
        217 => -209i32,
        218 => -205i32,
        219 => -201i32,
        220 => -197i32,
        221 => -193i32,
        222 => -189i32,
        223 => -185i32,
        224 => -181i32,
        225 => -176i32,
        226 => -171i32,
        227 => -167i32,
        228 => -162i32,
        229 => -157i32,
        230 => -152i32,
        231 => -147i32,
        232 => -142i32,
        233 => -136i32,
        234 => -131i32,
        235 => -126i32,
        236 => -120i32,
        237 => -115i32,
        238 => -109i32,
        239 => -103i32,
        240 => -97i32,
        241 => -92i32,
        242 => -86i32,
        243 => -80i32,
        244 => -74i32,
        245 => -68i32,
        246 => -62i32,
        247 => -56i32,
        248 => -49i32,
        249 => -43i32,
        250 => -37i32,
        251 => -31i32,
        252 => -25i32,
        253 => -18i32,
        254 => -12i32,
        _ => -6i32,
    }
}

/// The ribbons' sine table, every entry within `-256..=256`.
pub fn ribbon_lut() -> (t: Vec<i32>)
    ensures
        t@ == sine_table(),
        lut_ok(t@),
{
    let mut t: Vec<i32> = Vec::new();
    let mut i: usize = 0;
    while i < 256
        invariant
            i <= 256,
            t@.len() == i,
            forall|j: int| 0 <= j < i ==> #[trigger] t@[j] == sine_at(j as u8) && -256 <= t@[j] <= 256,
        decreases 256 - i,
    {
        let v = sine_entry(i);
        assert(-256 <= sine_at(i as u8) <= 256);
        t.push(v);
        i = i + 1;
    }
    assert(t@ =~= sine_table());
    t
}

/// The parameters `refract` accepts.
pub open spec fn ribbon_ok(rb: Ribbon) -> bool {
    &&& 0 <= rb.amp < 20
    &&& rb.freq < 4
    &&& rb.phase < 256
    &&& rb.alpha <= 256
    &&& 0 <= rb.thickness_base < 7
    &&& 0 <= rb.thickness_amp < 5
    &&& rb.thickness_freq < 4
    &&& rb.thickness_phase < 256
    &&& -1_000_000_000 <= rb.base_y <= 2_100_000_000
    &&& -150 <= rb.slope_fp < 150
    &&& -6 <= rb.refract_x <= 6
    &&& -6 <= rb.refract_y <= 6
}

/// Canvas sizes the filter accepts: the tilt `x * slope` of every column
/// and every row coordinate stay within `i32`.
pub open spec fn size_ok(w: int, h: int) -> bool {
    1 <= w <= 14_316_558 && 1 <= h <= 2_100_000_000
}

/// The image `new` differs from `old` only in colour channels of pixels
/// of the `w`×`h` canvas inside the ribbon; bytes past the canvas are kept.
pub open spec fn only_in_ribbon(old: Seq<u8>, new: Seq<u8>, w: int, h: int, rb: Ribbon, lut: Seq<i32>) -> bool {
    &&& new.len() == old.len()
    &&& forall|k: int|
        0 <= k < old.len() && (k % 4 == 3 || k >= w * h * 4 || !in_ribbon(rb, lut, (k / 4) % w, (k / 4) / w))
            ==> #[trigger] new[k] == old[k]
}

/// `v` clamped to `0..n`.
pub open spec fn clamp_coord(v: int, n: int) -> int {
    if v < 0 { 0 } else if v > n - 1 { n - 1 } else { v }
}

/// How far pixel `(x, y)` lies from the ribbon's centre line, from 0 on
/// the line to 256 at its edges.
pub open spec fn edge_factor(rb: Ribbon, lut: Seq<i32>, x: int, y: int) -> int {
    let d = y - centre(rb, lut, x);
    let dist = if d >= 0 { d } else { -d };
    dist * 256 / half_thickness(rb, lut, x)
}

/// The glint added to every channel: strongest half way to the edge.
pub open spec fn glint(f: int) -> int {
    let dev = if f >= 128 { f - 128 } else { 128 - f };
    if 128 - dev > 0 { (128 - dev) / 6 } else { 0 }
}

/// `src` over `org` at opacity `alpha` / 256, plus `hl`, saturating.
pub open spec fn mix(src: int, org: int, alpha: int, hl: int) -> u8 {
    let v = (src * alpha + org * (256 - alpha)) / 256 + hl;
    if v > 255 { 255 } else { v as u8 }
}

/// Channel `c` of pixel `(x, y)` once the ribbon is drawn over image `d`:
/// the channel of the pixel displaced by the refraction (shifted one more
/// pixel per channel, clamped to the canvas) mixed over the pixel itself.
pub open spec fn refracted_byte(d: Seq<u8>, w: int, h: int, rb: Ribbon, lut: Seq<i32>, x: int, y: int, c: int) -> u8 {
    let f = edge_factor(rb, lut, x, y);
    let sx = clamp_coord(x + fdiv256(rb.refract_x * f) + c - 1, w);
    let sy = clamp_coord(y + fdiv256(rb.refract_y * f) + c - 1, h);
    mix(d[(sy * w + sx) * 4 + c] as int, d[(y * w + x) * 4 + c] as int, rb.alpha as int, glint(f))
}

/// Image `d` after pixel `(x, y)` is drawn: its three colour channels are
/// replaced, everything else is kept.
pub open spec fn refract_pixel(d: Seq<u8>, w: int, h: int, rb: Ribbon, lut: Seq<i32>, x: int, y: int) -> Seq<u8> {
    let t = (y * w + x) * 4;
    Seq::new(d.len(), |k: int| if t <= k < t + 3 { refracted_byte(d, w, h, rb, lut, x, y, k - t) } else { d[k] })
}

/// The first row of column `x` that the ribbon covers.
pub open spec fn row_lo(rb: Ribbon, lut: Seq<i32>, x: int) -> int {
    let v = centre(rb, lut, x) - half_thickness(rb, lut, x);
    if v > 0 { v } else { 0 }
}

/// One past the last row of column `x` that the ribbon covers.
pub open spec fn row_hi(rb: Ribbon, lut: Seq<i32>, h: int, x: int) -> int {
    let v = centre(rb, lut, x) + half_thickness(rb, lut, x);
    let top = if v > 0 { v } else { 0 };
    if top < h { top } else { h }
}

/// The number of rows of column `x` that the ribbon covers.
pub open spec fn rows(rb: Ribbon, lut: Seq<i32>, h: int, x: int) -> nat {
    if row_hi(rb, lut, h, x) > row_lo(rb, lut, x) { (row_hi(rb, lut, h, x) - row_lo(rb, lut, x)) as nat } else { 0 }
}

/// Image `d` after the first `n` covered pixels of column `x` are drawn,
/// top to bottom.
pub open spec fn column_pass(d: Seq<u8>, w: int, h: int, rb: Ribbon, lut: Seq<i32>, x: int, n: nat) -> Seq<u8>
    decreases n,
{
    if n == 0 {
        d
    } else {
        refract_pixel(column_pass(d, w, h, rb, lut, x, (n - 1) as nat), w, h, rb, lut, x, row_lo(rb, lut, x) + n - 1)
    }
}

/// Image `d` after the first `m` columns are drawn, left to right.
pub open spec fn columns_pass(d: Seq<u8>, w: int, h: int, rb: Ribbon, lut: Seq<i32>, m: nat) -> Seq<u8>
    decreases m,
{
    if m == 0 {
        d
    } else {
        let x = m - 1;
        column_pass(columns_pass(d, w, h, rb, lut, (m - 1) as nat), w, h, rb, lut, x, rows(rb, lut, h, x))
    }
}

/// Image `d` with ribbon `rb` drawn across it.
pub open spec fn refracted(d: Seq<u8>, w: int, h: int, rb: Ribbon, lut: Seq<i32>) -> Seq<u8> {
    columns_pass(d, w, h, rb, lut, w as nat)
}

/// Channel `c` (0..3) of the displaced pixel for target `(x, y)`: the pixel
/// at `(x + dx + c - 1, y + dy + c - 1)` clamped to the canvas.
fn source_byte(data: &[u8], w: usize, h: usize, x: i32, y: i32, c: i32) -> (v: u8)
    requires
        data@.len() >= w * h * 4,
        size_ok(w as int, h as int),
        0 <= c < 3,
    ensures
        v == data@[(clamp_coord(y as int, h as int) * w + clamp_coord(x as int, w as int)) * 4 + c],
{
    let len = data.len();
    let sx = if x < 0 { 0 } else if x > w as i32 - 1 { w as i32 - 1 } else { x };
    let sy = if y < 0 { 0 } else if y > h as i32 - 1 { h as i32 - 1 } else { y };
    assert(((sy as usize) * w + (sx as usize)) * 4 + 3 < w * h * 4) by (nonlinear_arith)
        requires
            0 <= sx < w,
            0 <= sy < h,
    ;
    data[((sy as usize) * w + (sx as usize)) * 4 + (c as usize)]
}

/// Draws pixel `(x, y)` of the ribbon, `factor` being its edge factor.
fn draw_pixel(data: &mut [u8], w: usize, h: usize, rb: Ribbon, lut: &[i32], x: usize, y: i32, factor: i32)
    requires
        old(data)@.len() >= w * h * 4,
        size_ok(w as int, h as int),
        ribbon_ok(rb),
        x < w,
        0 <= y < h,
        0 <= factor <= 256,
        factor == edge_factor(rb, lut@, x as int, y as int),
    ensures
        final(data)@ == refract_pixel(old(data)@, w as int, h as int, rb, lut@, x as int, y as int),
{
    let ghost before = data@;
    let len = data.len();
    let xi = x as i32;
    let inv_alpha = 256 - rb.alpha;
    assert(-6 * 256 <= rb.refract_x * factor <= 6 * 256 && -6 * 256 <= rb.refract_y * factor <= 6 * 256) by (nonlinear_arith)
        requires
            0 <= factor <= 256,
            -6 <= rb.refract_x <= 6,
            -6 <= rb.refract_y <= 6,
    ;
    let cur_rx = shr8(rb.refract_x * factor);
    let cur_ry = shr8(rb.refract_y * factor);
    let src_r = source_byte(data, w, h, xi + cur_rx - 1, y + cur_ry - 1, 0);
    let src_g = source_byte(data, w, h, xi + cur_rx, y + cur_ry, 1);
    let src_b = source_byte(data, w, h, xi + cur_rx + 1, y + cur_ry + 1, 2);
    assert(((y as usize) * w + x) * 4 + 3 < w * h * 4) by (nonlinear_arith)
        requires
            0 <= x < w,
            0 <= y < h,
    ;
    let target = ((y as usize) * w + x) * 4;
    let dev = if factor >= 128 { factor - 128 } else { 128 - factor };
    let hl = 128 - dev;
    let highlight: u32 = if hl > 0 { (hl / 6) as u32 } else { 0 };
    assert(highlight == glint(factor as int));
    let srcs = [src_r, src_g, src_b];
    assert(forall|j: int| 0 <= j < 3 ==> #[trigger] srcs@[j] as int == before[(clamp_coord(y + cur_ry + j - 1, h as int) * w + clamp_coord(xi + cur_rx + j - 1, w as int)) * 4 + j]);
    let mut c: usize = 0;
    while c < 3
        invariant
            c <= 3,
            data@.len() == len,
            before.len() == len,
            target + 3 < len,
            rb.alpha <= 256,
            inv_alpha == 256 - rb.alpha,
            highlight <= 22,
            forall|k: int| 0 <= k < len && !(target <= k < target + c) ==> #[trigger] data@[k] == before[k],
            forall|j: int| 0 <= j < c ==> #[trigger] data@[target + j] == mix(srcs@[j] as int, before[target + j] as int, rb.alpha as int, highlight as int),
        decreases 3 - c,
    {
        let org = data[target + c] as u32;
        assert(srcs[c as int] as u32 * rb.alpha + org * inv_alpha <= 255 * 256) by (nonlinear_arith)
            requires
                srcs[c as int] <= 255,
                org <= 255,
                rb.alpha <= 256,
                inv_alpha == 256 - rb.alpha,
        ;
        let blended = (srcs[c] as u32 * rb.alpha + org * inv_alpha) / 256;
        let v = blended + highlight;
        data[target + c] = if v > 255 { 255 } else { v as u8 };
        c = c + 1;
    }
    proof {
        assert(data@ =~= refract_pixel(before, w as int, h as int, rb, lut@, x as int, y as int)) by {
            assert forall|k: int| 0 <= k < len implies #[trigger] data@[k] == refract_pixel(before, w as int, h as int, rb, lut@, x as int, y as int)[k] by {
                if target <= k < target + 3 {
                    let j = k - target;
                    assert(data@[target + j] == mix(srcs@[j] as int, before[target + j] as int, rb.alpha as int, highlight as int));
                }
            }
        }
    }
}

/// Drawing a pixel inside the ribbon keeps every byte the frame protects.
proof fn lemma_pixel_frame(orig: Seq<u8>, before: Seq<u8>, after: Seq<u8>, w: int, h: int, rb: Ribbon, lut: Seq<i32>, x: int, y: int)
    requires
        0 <= x < w,
        0 <= y < h,
        before.len() >= w * h * 4,
        in_ribbon(rb, lut, x, y),
        only_in_ribbon(orig, before, w, h, rb, lut),
        after == refract_pixel(before, w, h, rb, lut, x, y),
    ensures
        only_in_ribbon(orig, after, w, h, rb, lut),
{
    lemma_pixel_index(w, x, y, 0);
    lemma_pixel_index(w, x, y, 1);
    lemma_pixel_index(w, x, y, 2);
    lemma_pixel_index(w, x, y, 3);
    let target = (y * w + x) * 4;
    assert(target + 3 < w * h * 4) by (nonlinear_arith)
        requires
            0 <= x < w,
            0 <= y < h,
            target == (y * w + x) * 4,
    ;
    assert forall|k: int|
        0 <= k < orig.len() && (k % 4 == 3 || k >= w * h * 4 || !in_ribbon(rb, lut, (k / 4) % w, (k / 4) / w))
            implies #[trigger] after[k] == orig[k] by {
        if target <= k < target + 3 {
            let cc = k - target;
            assert(k % 4 == cc);
            assert((k / 4) % w == x && (k / 4) / w == y);
        } else {
            assert(after[k] == before[k]);
        }
    }
}

/// Draws ribbon `rb` (sine table `lut`) across the `w`×`h` RGBA image
/// `data`, column by column, top to bottom, each pixel reading the image
/// as drawn so far; only colour channels of pixels inside the ribbon
/// change.
pub fn refract(data: &mut [u8], w: usize, h: usize, rb: Ribbon, lut: &[i32])
    requires
        old(data)@.len() >= w * h * 4,
        size_ok(w as int, h as int),
        ribbon_ok(rb),
        lut_ok(lut@),
    ensures
        final(data)@ == refracted(old(data)@, w as int, h as int, rb, lut@),
        only_in_ribbon(old(data)@, final(data)@, w as int, h as int, rb, lut@),
{
    let ghost orig = data@;
    let len = data.len();
    let mut x: usize = 0;
    while x < w
        invariant
            data@.len() == len,
            len == orig.len(),
            len >= w * h * 4,
            size_ok(w as int, h as int),
            ribbon_ok(rb),
            lut_ok(lut@),
            x <= w,
            data@ == columns_pass(orig, w as int, h as int, rb, lut@, x as nat),
            only_in_ribbon(orig, data@, w as int, h as int, rb, lut@),
        decreases w - x,
    {
        let ghost col_start = data@;
        let xi = x as i32;
        assert(x * rb.freq <= 3 * 14_316_558 && x * rb.thickness_freq <= 3 * 14_316_558) by (nonlinear_arith)
            requires
                x < 14_316_558,
                rb.freq < 4,
                rb.thickness_freq < 4,
        ;
        let li = (x * rb.freq + rb.phase) % 256;
        let ti = (x * rb.thickness_freq + rb.thickness_phase) % 256;
        assert(-256 * 20 <= lut[li as int] * rb.amp <= 256 * 20 && -256 * 5 <= lut[ti as int] * rb.thickness_amp <= 256 * 5) by (nonlinear_arith)
            requires
                -256 <= lut[li as int] <= 256,
                -256 <= lut[ti as int] <= 256,
                0 <= rb.amp < 20,
                0 <= rb.thickness_amp < 5,
        ;
        let offset = shr8(lut[li] * rb.amp);
        let thick_mod = shr8(lut[ti] * rb.thickness_amp);
        assert(-5 <= thick_mod <= 5);
        let current_thickness = if rb.thickness_base + thick_mod > 1 { rb.thickness_base + thick_mod } else { 1 };
        assert(-2147483550 <= xi * rb.slope_fp <= 2147483550) by (nonlinear_arith)
            requires
                0 <= xi < 14_316_558,
                -150 <= rb.slope_fp < 150,
        ;
        let tilted_y = rb.base_y + shr8(xi * rb.slope_fp);
        let center_y = tilted_y + offset;
        assert(center_y == centre(rb, lut@, x as int));
        assert(-1_100_000_000 <= center_y <= 2_110_000_000);
        assert(current_thickness == half_thickness(rb, lut@, x as int));
        let y_start: i32 = if center_y - current_thickness > 0 { center_y - current_thickness } else { 0 };
        let y_top: i32 = if center_y + current_thickness > 0 { center_y + current_thickness } else { 0 };
        let y_end: i32 = if y_top < h as i32 { y_top } else { h as i32 };
        assert(y_start == row_lo(rb, lut@, x as int));
        assert(y_end == row_hi(rb, lut@, h as int, x as int));
        let mut y = y_start;
        while y < y_end
            invariant
                data@.len() == len,
                len == orig.len(),
                len >= w * h * 4,
                size_ok(w as int, h as int),
                ribbon_ok(rb),
                lut_ok(lut@),
                    x < w,
                xi == x,
                center_y == centre(rb, lut@, x as int),
                current_thickness == half_thickness(rb, lut@, x as int),
                1 <= current_thickness <= 12,
                y_start == row_lo(rb, lut@, x as int),
                y_end == row_hi(rb, lut@, h as int, x as int),
                y_start == (if center_y - current_thickness > 0 { center_y - current_thickness } else { 0 }),
                y_end <= h,
                y_end <= y_top,
                y_top == (if center_y + current_thickness > 0 { center_y + current_thickness } else { 0 }),
                -1_100_000_000 <= center_y <= 2_110_000_000,
                0 <= y_start <= y,
                y == y_start || y <= y_end,
                data@ == column_pass(col_start, w as int, h as int, rb, lut@, x as int, (y - y_start) as nat),
                only_in_ribbon(orig, data@, w as int, h as int, rb, lut@),
            decreases y_end - y,
        {
            let ghost before = data@;
            let dist = if y >= center_y { y - center_y } else { center_y - y };
            assert(dist <= current_thickness);
            let factor = dist * 256 / current_thickness;
            assert(0 <= factor <= 256) by (nonlinear_arith)
                requires
                    0 <= dist <= current_thickness,
                    1 <= current_thickness <= 12,
                    factor == dist * 256 / (current_thickness as int),
            ;
            assert(factor == edge_factor(rb, lut@, x as int, y as int));
            draw_pixel(data, w, h, rb, lut, x, y, factor);
            proof {
                lemma_pixel_frame(orig, before, data@, w as int, h as int, rb, lut@, x as int, y as int);
            }
            y = y + 1;
        }
        proof {
            assert((y - y_start) as nat == rows(rb, lut@, h as int, x as int));
        }
        x = x + 1;
    }
}

/// The parameters `apply` draws a ribbon from.
pub open spec fn drawn_ok(rb: Ribbon, h: int) -> bool {
    &&& 8 <= rb.amp <= 19
    &&& 1 <= rb.freq <= 2
    &&& rb.phase <= 255
    &&& 128 <= rb.alpha <= 199
    &&& 4 <= rb.thickness_base <= 6
    &&& 2 <= rb.thickness_amp <= 4
    &&& 2 <= rb.thickness_freq <= 3
    &&& rb.thickness_phase <= 255
    &&& 15 <= rb.base_y < (if h - 15 > 16 { h - 15 } else { 16 })
    &&& -150 <= rb.slope_fp <= 149
    &&& -6 <= rb.refract_x <= 6
    &&& -6 <= rb.refract_y <= 6
}

/// Image `d` with the ribbons `rbs` drawn across it in order.
pub open spec fn ribboned(d: Seq<u8>, w: int, h: int, rbs: Seq<Ribbon>, lut: Seq<i32>) -> Seq<u8>
    decreases rbs.len(),
{
    if rbs.len() == 0 {
        d
    } else {
        refracted(ribboned(d, w, h, rbs.drop_last(), lut), w, h, rbs.last(), lut)
    }
}

/// `new` is `old` with some ribbons `apply` can draw.
pub open spec fn outcome(old: Seq<u8>, new: Seq<u8>, w: int, h: int, lut: Seq<i32>) -> bool {
    exists|rbs: Seq<Ribbon>|
        3 <= rbs.len() <= 5 && (forall|i: int| 0 <= i < rbs.len() ==> drawn_ok(#[trigger] rbs[i], h))
            && new == #[trigger] ribboned(old, w, h, rbs, lut)
}

/// Holographic prism ribbons: three to five random ribbons, each drawn
/// by `refract` with the sine table `lut`.
pub fn apply(data: &mut [u8], w: usize, h: usize, rng: &mut fastrand::Rng, lut: &[i32])
    requires
        old(data)@.len() >= w * h * 4,
        size_ok(w as int, h as int),
        lut_ok(lut@),
    ensures
        outcome(old(data)@, final(data)@, w as int, h as int, lut@),
        alpha_kept(old(data)@, final(data)@),
        tail_kept(old(data)@, final(data)@, w * h * 4),
{
    let ghost orig = data@;
    let num_ribbons = rng_usize(rng, 3, 5);
    let ghost mut done: Seq<Ribbon> = Seq::empty();
    let hi: i32 = if h as i32 - 15 > 16 { h as i32 - 15 } else { 16 };
    let mut k: usize = 0;
    while k < num_ribbons
        invariant
            k <= num_ribbons <= 5,
            3 <= num_ribbons,
            data@.len() == orig.len(),
            orig.len() >= w * h * 4,
            size_ok(w as int, h as int),
            lut_ok(lut@),
            hi == (if h - 15 > 16 { h - 15 } else { 16 }),
            done.len() == k,
            forall|i: int| 0 <= i < done.len() ==> drawn_ok(#[trigger] done[i], h as int),
            data@ == ribboned(orig, w as int, h as int, done, lut@),
            forall|j: int| 0 <= j < orig.len() && j % 4 == 3 ==> #[trigger] data@[j] == orig[j],
            tail_kept(orig, data@, w * h * 4),
        decreases num_ribbons - k,
    {
        let amp = rng_i32(rng, 8, 19);
        let freq = rng_usize(rng, 1, 2);
        let phase = rng_usize(rng, 0, 255);
        let alpha = rng_u32(rng, 128, 199);
        let thickness_base = rng_i32(rng, 4, 6);
        let thickness_amp = rng_i32(rng, 2, 4);
        let thickness_freq = rng_usize(rng, 2, 3);
        let thickness_phase = rng_usize(rng, 0, 255);
        let base_y = rng_i32(rng, 15, hi - 1);
        let slope_fp = rng_i32(rng, -150, 149);
        let refract_x = rng_i32(rng, -6, 6);
        let refract_y = rng_i32(rng, -6, 6);
        let rb = Ribbon {
            amp,
            freq,
            phase,
            alpha,
            thickness_base,
            thickness_amp,
            thickness_freq,
            thickness_phase,
            base_y,
            slope_fp,
            refract_x,
            refract_y,
        };
        let ghost before = data@;
        refract(data, w, h, rb, lut);
        proof {
            let prev = done;
            done = done.push(rb);
            assert(done.drop_last() =~= prev);
            assert forall|j: int| 0 <= j < orig.len() && j % 4 == 3 implies #[trigger] data@[j] == orig[j] by {
                assert(data@[j] == before[j]);
            }
            assert forall|j: int| w * h * 4 <= j < orig.len() implies #[trigger] data@[j] == orig[j] by {
                assert(data@[j] == before[j]);
            }
        }
        k = k + 1;
    }
}

} // verus!
