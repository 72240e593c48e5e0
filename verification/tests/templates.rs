use svg_captcha::num::push_dec;
use svg_captcha::tmpl::{
    bg_rect, circle, filters, icon_group, linear_gradient, pattern, push_stop, radial_gradient, svg, wave,
    IconArgs, WaveArgs, FILTER_P1, FILTER_P2, FILTER_P3,
};

#[test]
fn decimal_writes_digits() {
    let mut z = String::new();
    push_dec(&mut z, 0);
    assert_eq!(z, "0");
    let mut n = String::new();
    push_dec(&mut n, -42);
    assert_eq!(n, "-42");
    let mut b = String::new();
    push_dec(&mut b, 1234567890123);
    assert_eq!(b, "1234567890123");
    let mut s = String::from("x=");
    push_dec(&mut s, 305);
    assert_eq!(s, "x=305");
}

#[test]
fn filters_are_seeded_twice() {
    let mut s = String::new();
    filters(&mut s, 77);
    assert_eq!(s, format!("{}77{}77{}", FILTER_P1, FILTER_P2, FILTER_P3));
}

#[test]
fn linear_gradient_markup() {
    let mut s = String::from("<defs>");
    linear_gradient(&mut s, "g1", 0, 50, 100, -5, "<stop/>");
    assert_eq!(
        s,
        "<defs><linearGradient id=\"g1\" x1=\"0%\" y1=\"50%\" x2=\"100%\" y2=\"-5%\"><stop/></linearGradient>"
    );
}

#[test]
fn radial_gradient_markup() {
    let mut s = String::new();
    radial_gradient(&mut s, "bg0", [20, 30, 40, 50], 60, "S");
    assert_eq!(
        s,
        "<radialGradient id=\"bg0\" cx=\"20%\" cy=\"30%\" r=\"60%\" fx=\"40%\" fy=\"50%\">S</radialGradient>"
    );
}

#[test]
fn pattern_markup() {
    let mut s = String::new();
    pattern(&mut s, 45, 24, "M0 0h1");
    assert_eq!(
        s,
        "<pattern id=\"p\" patternTransform=\"scale(0.8) rotate(45)\" width=\"24\" height=\"24\" patternUnits=\"userSpaceOnUse\"><path fill=\"url(#bg2)\" d=\"M0 0h1\"/></pattern>"
    );
}

#[test]
fn bg_rect_markup_light_and_dark() {
    let mut s = String::new();
    bg_rect(&mut s, 300, 200, false);
    assert_eq!(
        s,
        "<rect width=\"300\" height=\"200\" fill=\"url(#bg0)\" stroke=\"none\"/><rect width=\"300\" height=\"200\" fill=\"url(#p)\" fill-opacity=\"0.1\" stroke=\"none\"/>"
    );
    let mut d = String::new();
    bg_rect(&mut d, 1, 2, true);
    assert!(d.contains("fill-opacity=\"0.2\""));
}

#[test]
fn wave_markup() {
    let mut s = String::new();
    wave(&mut s, WaveArgs { d: "M0 0", op: "0.25", stroke: "none", sw: 3, rotate: -12, cx: 150, cy: 75 });
    assert_eq!(
        s,
        "<path d=\"M0 0\" filter=\"url(#f_distort)\" fill=\"url(#bg1)\" fill-opacity=\"0.25\" stroke=\"none\" stroke-width=\"3\" transform=\"rotate(-12 150 75)\"/>"
    );
}

#[test]
fn icon_group_markup() {
    let mut s = String::new();
    icon_group(
        &mut s,
        IconArgs {
            filter: "f_glossy",
            pos: [10, 20, -30],
            transform: ("512.0", 5, -6),
            sz: 40,
            op: "0.9",
            view: "0 0 1024 1024",
            grad: "g0",
            path: "<path/>",
        },
    );
    assert_eq!(
        s,
        "<g filter=\"url(#f_glossy)\"><g filter=\"url(#f_distort)\" transform=\"translate(10,20) rotate(-30,512.0,512.0) skewX(5) skewY(-6)\"><svg viewBox=\"0 0 1024 1024\" width=\"40\" height=\"40\" opacity=\"0.9\" overflow=\"visible\"><g fill=\"url(#g0)\" stroke=\"url(#g0)\"><path/></g></svg></g></g>"
    );
}

#[test]
fn svg_document_markup() {
    let mut s = String::new();
    svg(&mut s, 300, 150, "D", "B");
    assert_eq!(
        s,
        "<svg width=\"300\" height=\"150\" viewBox=\"0 0 300 150\" xmlns=\"http://www.w3.org/2000/svg\"><defs>D</defs><g filter=\"url(#f_noise)\">B</g></svg>"
    );
}

#[test]
fn stop_markup() {
    let mut s = String::new();
    push_stop(&mut s, "50.0", 210, 80, 35, "1.0");
    assert_eq!(s, "<stop offset=\"50.0%\" stop-color=\"hsl(210,80%,35%)\" stop-opacity=\"1.0\"/>");
}

#[test]
fn circle_markup() {
    let mut s = String::new();
    circle(&mut s, 3, 4, "2.5", "red", "0.5");
    assert_eq!(s, "<circle cx=\"3\" cy=\"4\" r=\"2.5\" fill=\"red\" opacity=\"0.5\"/>");
}
