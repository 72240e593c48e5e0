use svg_captcha::filter::cinematic::shade;
use svg_captcha::filter::grain::{grain_with, LUT_SIZE};
use svg_captcha::filter::metaballs::{paint_cluster, Ball, Cluster};
use svg_captcha::filter::oil_painting::{stroke_with, Stroke};
use svg_captcha::filter::ribbon::{refract, Ribbon};
use svg_captcha::filter::warp::{warp_with, wave_entry};
use svg_captcha::filter::watercolor::wash_with;
use svg_captcha::filter::{apply_all, cinematic, grain, metaballs, oil_painting, ribbon, warp, watercolor};

fn uniform(w: usize, h: usize, px: [u8; 4]) -> Vec<u8> {
    let mut v = Vec::with_capacity(w * h * 4);
    for _ in 0..w * h {
        v.extend_from_slice(&px);
    }
    v
}

fn pixel(d: &[u8], w: usize, x: usize, y: usize) -> [u8; 4] {
    let i = (y * w + x) * 4;
    [d[i], d[i + 1], d[i + 2], d[i + 3]]
}

fn sin_table(scale: f32) -> Vec<i32> {
    (0..256).map(|i| ((i as f32 * std::f32::consts::PI / 128.0).sin() * scale) as i32).collect()
}

fn noisy(w: usize, h: usize, seed: u64) -> Vec<u8> {
    let mut rng = fastrand::Rng::with_seed(seed);
    let mut v = Vec::with_capacity(w * h * 4);
    for _ in 0..w * h {
        v.push(rng.u8(..));
        v.push(rng.u8(..));
        v.push(rng.u8(..));
        v.push(255);
    }
    v
}

fn all_opaque(d: &[u8]) -> bool {
    d.chunks_exact(4).all(|p| p[3] == 255)
}

#[test]
fn shade_vignette_and_leak() {
    let mut d = uniform(4, 2, [100, 100, 100, 255]);
    shade(&mut d, 4, 2, 0, [60, 20, 60]);
    assert_eq!(pixel(&d, 4, 0, 0), [102, 62, 102, 255]);
    assert_eq!(pixel(&d, 4, 1, 0), [116, 90, 116, 255]);
    assert_eq!(pixel(&d, 4, 2, 1), [100, 100, 100, 255]);
}

#[test]
fn shade_clamps() {
    let mut d = uniform(4, 2, [250, 5, 0, 9]);
    shade(&mut d, 4, 2, 0, [60, 20, 60]);
    assert_eq!(pixel(&d, 4, 0, 0), [252, 0, 2, 9]);
}

#[test]
fn grain_offsets_channels() {
    let g = vec![10i8; LUT_SIZE];
    let c = vec![3i8; LUT_SIZE];
    let mut d = vec![250, 5, 100, 77, 0, 0, 0, 1];
    grain_with(&mut d, 2, 1, &g, &c, 4095);
    assert_eq!(d, vec![255, 12, 110, 77, 13, 7, 10, 1]);
    let g = vec![-20i8; LUT_SIZE];
    let c = vec![5i8; LUT_SIZE];
    let mut d = vec![10, 30, 15, 200];
    grain_with(&mut d, 1, 1, &g, &c, 0);
    assert_eq!(d, vec![0, 5, 0, 200]);
}

#[test]
fn wave_table_matches_sine() {
    for amp in 1..=2 {
        for i in 0..256usize {
            let expect = ((i as f32 * std::f32::consts::PI / 128.0).sin() * amp as f32) as i32;
            assert_eq!(wave_entry(amp, i), expect, "amp {} entry {}", amp, i);
        }
    }
}

#[test]
fn warp_rotates_rows() {
    let mut d: Vec<u8> = (0..32).collect();
    warp_with(&mut d, 4, 2, 64, 0);
    let expect: Vec<u8> = vec![
        8, 9, 10, 11, 12, 13, 14, 15, 0, 1, 2, 3, 4, 5, 6, 7, 28, 29, 30, 31, 16, 17, 18, 19, 20, 21, 22, 23, 24,
        25, 26, 27,
    ];
    assert_eq!(d, expect);
    let mut z: Vec<u8> = (0..32).collect();
    warp_with(&mut z, 4, 1, 0, 1);
    assert_eq!(z, (0..32).collect::<Vec<u8>>());
}

#[test]
fn splash_paints_inside_the_field() {
    let mut d = uniform(10, 10, [0, 0, 0, 255]);
    let cl = Cluster { balls: vec![Ball { cx: 5, cy: 5, r: 2 }], start: [200, 0, 0], end: [200, 0, 0], alpha: 256 };
    paint_cluster(&mut d, 10, 10, &cl);
    assert_eq!(pixel(&d, 10, 5, 5), [200, 0, 0, 255]);
    assert_eq!(pixel(&d, 10, 6, 5), [200, 0, 0, 255]);
    assert_eq!(pixel(&d, 10, 7, 5), [0, 0, 0, 255]);
    assert_eq!(pixel(&d, 10, 0, 0), [0, 0, 0, 255]);
}

#[test]
fn splash_gradient_and_blend() {
    let mut d = uniform(10, 10, [0, 0, 100, 255]);
    let cl = Cluster { balls: vec![Ball { cx: 5, cy: 5, r: 2 }], start: [0, 0, 0], end: [255, 0, 0], alpha: 128 };
    paint_cluster(&mut d, 10, 10, &cl);
    assert_eq!(pixel(&d, 10, 5, 5), [63, 0, 50, 255]);
}

#[test]
fn stroke_paints_footprint() {
    let mut d = uniform(10, 10, [0, 0, 0, 255]);
    let i = (5 * 10 + 5) * 4;
    d[i] = 10;
    d[i + 1] = 20;
    d[i + 2] = 254;
    let st = Stroke { cx: 5, cy: 5, len: 2, thick: 1, dir: 0, jitter: 3, coins: vec![true; 8] };
    stroke_with(&mut d, 10, 10, &st);
    for y in 0..10 {
        for x in 0..10 {
            let inside = (4..=6).contains(&x) && (4..=5).contains(&y);
            let expect = if inside { [13, 23, 255, 255] } else { [0, 0, 0, 255] };
            assert_eq!(pixel(&d, 10, x, y), expect, "pixel {} {}", x, y);
        }
    }
}

#[test]
fn stroke_skips_cells_without_paint() {
    let mut d = uniform(10, 10, [40, 40, 40, 255]);
    let mut coins = vec![false; 8];
    coins[0] = true;
    let st = Stroke { cx: 5, cy: 5, len: 2, thick: 1, dir: 3, jitter: -10, coins };
    stroke_with(&mut d, 10, 10, &st);
    assert_eq!(pixel(&d, 10, 4, 4), [30, 30, 30, 255]);
    assert_eq!(pixel(&d, 10, 5, 4), [40, 40, 40, 255]);
    assert_eq!(pixel(&d, 10, 5, 5), [40, 40, 40, 255]);
}

#[test]
fn ribbon_refracts_one_column() {
    let mut d = uniform(1, 10, [50, 60, 70, 255]);
    let rb = Ribbon {
        amp: 0,
        freq: 1,
        phase: 0,
        alpha: 256,
        thickness_base: 2,
        thickness_amp: 0,
        thickness_freq: 2,
        thickness_phase: 0,
        base_y: 5,
        slope_fp: 0,
        refract_x: 0,
        refract_y: 0,
    };
    refract(&mut d, 1, 10, rb, &vec![0; 256]);
    assert_eq!(pixel(&d, 1, 0, 2), [50, 60, 70, 255]);
    assert_eq!(pixel(&d, 1, 0, 3), [50, 60, 70, 255]);
    assert_eq!(pixel(&d, 1, 0, 4), [71, 81, 91, 255]);
    assert_eq!(pixel(&d, 1, 0, 5), [71, 60, 70, 255]);
    assert_eq!(pixel(&d, 1, 0, 6), [92, 81, 91, 255]);
    assert_eq!(pixel(&d, 1, 0, 7), [50, 60, 70, 255]);
}

#[test]
fn every_filter_keeps_alpha() {
    let (w, h) = (40, 30);
    let lut = sin_table(256.0);
    let mut rng = fastrand::Rng::with_seed(7);
    let orig = noisy(w, h, 1);
    let mut d = orig.clone();
    oil_painting::apply(&mut d, w, h, &mut rng);
    assert!(all_opaque(&d));
    cinematic::apply(&mut d, w, h, &mut rng);
    assert!(all_opaque(&d));
    warp::apply(&mut d, w, h, &mut rng);
    assert!(all_opaque(&d));
    ribbon::apply(&mut d, w, h, &mut rng, &lut);
    assert!(all_opaque(&d));
    metaballs::apply(&mut d, w, h, &mut rng);
    assert!(all_opaque(&d));
    grain::apply(&mut d, w, h, &mut rng);
    assert!(all_opaque(&d));
    assert_eq!(d.len(), orig.len());
}

#[test]
fn translucent_alpha_is_kept_by_colour_filters() {
    let (w, h) = (30, 30);
    let mut rng = fastrand::Rng::with_seed(3);
    let mut d = noisy(w, h, 2);
    for (k, b) in d.iter_mut().enumerate() {
        if k % 4 == 3 {
            *b = (k / 4 % 256) as u8;
        }
    }
    let before: Vec<u8> = d.iter().skip(3).step_by(4).copied().collect();
    oil_painting::apply(&mut d, w, h, &mut rng);
    cinematic::apply(&mut d, w, h, &mut rng);
    metaballs::apply(&mut d, w, h, &mut rng);
    grain::apply(&mut d, w, h, &mut rng);
    ribbon::apply(&mut d, w, h, &mut rng, &sin_table(256.0));
    let after: Vec<u8> = d.iter().skip(3).step_by(4).copied().collect();
    assert_eq!(before, after);
}

#[test]
fn filter_chain_keeps_opaque_images_opaque() {
    let (w, h) = (60, 40);
    let mut d = noisy(w, h, 9);
    apply_all(&mut d, w, h);
    assert_eq!(d.len(), w * h * 4);
    assert!(all_opaque(&d));
}

#[test]
fn filter_chain_changes_the_picture() {
    let (w, h) = (60, 40);
    let orig = uniform(w, h, [128, 128, 128, 255]);
    let mut d = orig.clone();
    apply_all(&mut d, w, h);
    assert_ne!(d, orig);
}

#[test]
fn watercolor_bleeds_strong_edges() {
    let mut d = uniform(5, 5, [0, 0, 0, 255]);
    let i = (2 * 5 + 3) * 4;
    d[i..i + 3].copy_from_slice(&[100, 100, 100]);
    let mut rng = fastrand::Rng::with_seed(1);
    wash_with(&mut d, 5, 5, &vec![(1, 0); 512], &mut rng);
    assert_eq!(pixel(&d, 5, 2, 2), [33, 33, 33, 255]);
    assert_eq!(pixel(&d, 5, 3, 2), [100, 100, 100, 255]);
}

#[test]
fn watercolor_pools_pigment_at_medium_contrast() {
    let mut d = uniform(5, 5, [100, 100, 100, 200]);
    let i = (2 * 5 + 1) * 4;
    d[i..i + 3].copy_from_slice(&[40, 100, 100]);
    let mut rng = fastrand::Rng::with_seed(1);
    wash_with(&mut d, 5, 5, &vec![(-1, 0); 512], &mut rng);
    assert_eq!(pixel(&d, 5, 2, 2), [85, 78, 95, 200]);
}

#[test]
fn watercolor_zero_offset_and_small_images_untouched() {
    let orig = noisy(6, 6, 4);
    let mut d = orig.clone();
    let mut rng = fastrand::Rng::with_seed(2);
    wash_with(&mut d, 6, 6, &vec![(0, 0); 512], &mut rng);
    assert_eq!(d, orig);
    let small = noisy(4, 3, 5);
    let mut s = small.clone();
    watercolor::apply(&mut s, 4, 3, &mut rng);
    assert_eq!(s, small);
}

#[test]
fn watercolor_keeps_alpha() {
    let mut d = noisy(30, 20, 8);
    for (k, b) in d.iter_mut().enumerate() {
        if k % 4 == 3 {
            *b = (k % 251) as u8;
        }
    }
    let before: Vec<u8> = d.iter().skip(3).step_by(4).copied().collect();
    let mut rng = fastrand::Rng::with_seed(11);
    watercolor::apply(&mut d, 30, 20, &mut rng);
    let after: Vec<u8> = d.iter().skip(3).step_by(4).copied().collect();
    assert_eq!(before, after);
}

#[test]
fn filters_keep_bytes_past_the_image() {
    let (w, h) = (30, 20);
    let tail = [9u8, 8, 7, 6, 5];
    let lut = sin_table(256.0);
    let mut rng = fastrand::Rng::with_seed(21);
    let mut d = noisy(w, h, 3);
    d.extend_from_slice(&tail);
    oil_painting::apply(&mut d, w, h, &mut rng);
    cinematic::apply(&mut d, w, h, &mut rng);
    ribbon::apply(&mut d, w, h, &mut rng, &lut);
    metaballs::apply(&mut d, w, h, &mut rng);
    grain::apply(&mut d, w, h, &mut rng);
    watercolor::apply(&mut d, w, h, &mut rng);
    assert_eq!(d.len(), w * h * 4 + 5);
    assert_eq!(&d[w * h * 4..], &tail);
}

#[test]
fn warp_keeps_a_partial_row() {
    let mut d: Vec<u8> = (0..38).collect();
    warp_with(&mut d, 4, 2, 64, 0);
    assert_eq!(&d[0..16], &[8, 9, 10, 11, 12, 13, 14, 15, 0, 1, 2, 3, 4, 5, 6, 7]);
    assert_eq!(&d[32..38], &[32, 33, 34, 35, 36, 37]);
}

#[test]
fn oil_leaves_tiny_images_alone() {
    let mut d = vec![7u8; 36];
    let mut rng = fastrand::Rng::with_seed(1);
    oil_painting::apply(&mut d, 3, 3, &mut rng);
    assert_eq!(d, vec![7u8; 36]);
}

#[test]
fn oil_paints_a_thirteen_pixel_canvas() {
    let mut d = noisy(13, 13, 6);
    let mut rng = fastrand::Rng::with_seed(4);
    oil_painting::apply(&mut d, 13, 13, &mut rng);
    assert!(all_opaque(&d));
}

#[test]
fn filter_chain_runs_at_thirteen_pixels() {
    let mut d = noisy(13, 14, 12);
    apply_all(&mut d, 13, 14);
    assert_eq!(d.len(), 13 * 14 * 4);
    assert!(all_opaque(&d));
}

#[test]
fn wide_canvases_for_splashes_and_ribbons() {
    let (w, h) = (20000, 24);
    let mut d = noisy(w, h, 13);
    let mut rng = fastrand::Rng::with_seed(5);
    metaballs::apply(&mut d, w, h, &mut rng);
    ribbon::apply(&mut d, w, h, &mut rng, &sin_table(256.0));
    assert!(all_opaque(&d));
}

#[test]
fn splash_skipped_when_its_rows_leave_the_buffer() {
    let mut d = uniform(10, 4, [0, 0, 0, 255]);
    let cl = Cluster { balls: vec![Ball { cx: 5, cy: 5, r: 2 }], start: [200, 0, 0], end: [200, 0, 0], alpha: 256 };
    paint_cluster(&mut d, 10, 10, &cl);
    assert_eq!(d, uniform(10, 4, [0, 0, 0, 255]));
}

#[test]
fn ribbon_table_matches_f32_sine() {
    assert_eq!(ribbon::ribbon_lut(), sin_table(256.0));
}

#[test]
fn filter_chain_runs_on_narrow_canvases() {
    let mut d = noisy(2, 1, 14);
    apply_all(&mut d, 2, 1);
    assert!(all_opaque(&d));
    let mut e = noisy(4, 10, 15);
    apply_all(&mut e, 4, 10);
    assert!(all_opaque(&e));
}

#[test]
fn oil_strokes_stay_on_small_canvases() {
    for seed in 0..40 {
        let (w, h) = (4, 10);
        let tail = [1u8, 2, 3];
        let mut d = noisy(w, h, seed);
        d.extend_from_slice(&tail);
        let before = d.clone();
        let mut rng = fastrand::Rng::with_seed(seed);
        oil_painting::apply(&mut d, w, h, &mut rng);
        assert_eq!(&d[w * h * 4..], &tail);
        for p in 0..w * h {
            assert_eq!(d[p * 4 + 3], before[p * 4 + 3]);
        }
    }
}

#[test]
fn stroke_off_the_canvas_paints_nothing() {
    let mut d = uniform(4, 4, [10, 10, 10, 255]);
    let st = Stroke { cx: 6, cy: 1, len: 2, thick: 1, dir: 0, jitter: 5, coins: vec![true; 8] };
    stroke_with(&mut d, 4, 4, &st);
    assert_eq!(d, uniform(4, 4, [10, 10, 10, 255]));
}

#[test]
fn stroke_cells_off_the_canvas_are_skipped() {
    let mut d = uniform(4, 4, [10, 10, 10, 255]);
    let st = Stroke { cx: 3, cy: 0, len: 2, thick: 1, dir: 0, jitter: 5, coins: vec![true; 8] };
    stroke_with(&mut d, 4, 4, &st);
    for y in 0..4 {
        for x in 0..4 {
            let painted = (2..=3).contains(&x) && y == 0;
            let expect = if painted { [15, 15, 15, 255] } else { [10, 10, 10, 255] };
            assert_eq!(pixel(&d, 4, x, y), expect, "pixel {} {}", x, y);
        }
    }
}
