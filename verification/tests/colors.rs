use svg_captcha::color::{grad, grad_with, palette, palette_from, GradChoice};
use svg_captcha::hue_norm;

fn lin_table() -> Vec<(i32, i32)> {
    let mut lin = Vec::new();
    for angle in 0..360u16 {
        let rad = (angle as f32 * std::f32::consts::PI) / 180.0;
        let (sin, cos) = rad.sin_cos();
        lin.push(((50.0 + 50.0 * cos).round() as i32, (50.0 + 50.0 * sin).round() as i32));
    }
    lin
}

#[test]
fn hue_norm_wraps_both_ways() {
    assert_eq!(hue_norm(0), 0);
    assert_eq!(hue_norm(359), 359);
    assert_eq!(hue_norm(360), 0);
    assert_eq!(hue_norm(725), 5);
    assert_eq!(hue_norm(-20), 340);
    assert_eq!(hue_norm(-360), 0);
    assert_eq!(hue_norm(-721), 359);
    assert_eq!(hue_norm(i32::MIN), (i32::MIN.rem_euclid(360)) as u16);
}

#[test]
fn palette_from_steps_hues() {
    let p = palette_from(350, 30, 4);
    let hs: Vec<u16> = p.iter().map(|c| c.h).collect();
    assert_eq!(hs, vec![350, 20, 50, 80]);
}

#[test]
fn palette_is_evenly_stepped() {
    for _ in 0..50 {
        let p = palette();
        assert!((4..=6).contains(&p.len()));
        let step = (p[1].h as i32 - p[0].h as i32).rem_euclid(360);
        assert!((20..40).contains(&step) || (40..70).contains(&step) || (120..180).contains(&step));
        for k in 1..p.len() {
            assert_eq!((p[k].h as i32 - p[k - 1].h as i32).rem_euclid(360), step);
        }
    }
}

#[test]
fn smooth_linear_gradient_text() {
    let lin = lin_table();
    let c = GradChoice { ss: 80, lls: vec![], radial: false, pos: [20, 20, 20, 20], r: 40, angle: 0 };
    let mut s = String::new();
    grad_with(&mut s, "bg0", 350, 91, 96, "1.0", 0, &[], &c, &lin);
    assert_eq!(
        s,
        "<linearGradient id=\"bg0\" x1=\"100%\" y1=\"50%\" x2=\"0%\" y2=\"50%\"><stop offset=\"0.0%\" stop-color=\"hsl(350,80%,91%)\" stop-opacity=\"1.0\"/><stop offset=\"50.0%\" stop-color=\"hsl(5,80%,93%)\" stop-opacity=\"1.0\"/><stop offset=\"100.0%\" stop-color=\"hsl(20,80%,96%)\" stop-opacity=\"1.0\"/></linearGradient>"
    );
}

#[test]
fn banded_radial_gradient_text() {
    let lin = lin_table();
    let c = GradChoice { ss: 90, lls: vec![22, 33], radial: true, pos: [20, 30, 40, 50], r: 70, angle: 0 };
    let mut s = String::new();
    let offs = vec!["0.0".to_string(), "50.0".to_string(), "100.0".to_string()];
    grad_with(&mut s, "g3", 100, 20, 35, "1.0", 2, &offs, &c, &lin);
    assert_eq!(
        s,
        "<radialGradient id=\"g3\" cx=\"20%\" cy=\"30%\" r=\"70%\" fx=\"40%\" fy=\"50%\"><stop offset=\"0.0%\" stop-color=\"hsl(100,90%,22%)\" stop-opacity=\"1.0\"/><stop offset=\"50.0%\" stop-color=\"hsl(100,90%,22%)\" stop-opacity=\"1.0\"/><stop offset=\"50.0%\" stop-color=\"hsl(136,90%,33%)\" stop-opacity=\"1.0\"/><stop offset=\"100.0%\" stop-color=\"hsl(136,90%,33%)\" stop-opacity=\"1.0\"/></radialGradient>"
    );
}

#[test]
fn random_gradient_has_its_id_and_stops() {
    let lin = lin_table();
    let offs = vec!["0.0".to_string(), "50.0".to_string(), "100.0".to_string()];
    for _ in 0..20 {
        let mut s = String::new();
        grad(&mut s, "g0", 200, 20, 35, "1.0", 2, &offs, &lin);
        assert!(s.starts_with("<linearGradient id=\"g0\"") || s.starts_with("<radialGradient id=\"g0\""));
        assert_eq!(s.matches("<stop ").count(), 4);
    }
}

fn ryu_text(v: f32) -> String {
    let mut b = ryu::Buffer::new();
    b.format(v).to_string()
}

#[test]
fn three_band_gradient_takes_float_offsets() {
    let lin = lin_table();
    let offs: Vec<String> = (0..=3u8).map(|i| ryu_text((i as f32 * 100.0) / 3.0)).collect();
    assert_eq!(offs, vec!["0.0", "33.333332", "66.666664", "100.0"]);
    let c = GradChoice { ss: 80, lls: vec![20, 30, 21], radial: false, pos: [20, 20, 20, 20], r: 40, angle: 90 };
    let mut s = String::new();
    grad_with(&mut s, "g1", 10, 20, 35, "1.0", 3, &offs, &c, &lin);
    assert_eq!(
        s,
        "<linearGradient id=\"g1\" x1=\"50%\" y1=\"100%\" x2=\"50%\" y2=\"0%\"><stop offset=\"0.0%\" stop-color=\"hsl(10,80%,20%)\" stop-opacity=\"1.0\"/><stop offset=\"33.333332%\" stop-color=\"hsl(10,80%,20%)\" stop-opacity=\"1.0\"/><stop offset=\"33.333332%\" stop-color=\"hsl(34,80%,30%)\" stop-opacity=\"1.0\"/><stop offset=\"66.666664%\" stop-color=\"hsl(34,80%,30%)\" stop-opacity=\"1.0\"/><stop offset=\"66.666664%\" stop-color=\"hsl(58,80%,21%)\" stop-opacity=\"1.0\"/><stop offset=\"100.0%\" stop-color=\"hsl(58,80%,21%)\" stop-opacity=\"1.0\"/></linearGradient>"
    );
    let mut t = String::new();
    grad(&mut t, "g2", 10, 20, 35, "0.5", 7, &(0..=7u8).map(|i| ryu_text((i as f32 * 100.0) / 7.0)).collect::<Vec<_>>(), &lin);
    assert_eq!(t.matches("<stop ").count(), 14);
}
