use svg_captcha::render::{Captcha, Scene, SvgIcon};
use svg_captcha::{render, verify};

fn icon_set(n: usize) -> Vec<SvgIcon> {
    let mut icons = Vec::new();
    for i in 0..n {
        icons.push(SvgIcon {
            raw: format!("<svg viewBox=\"0 0 1024 1024\"><path d=\"M{} 0h100v100z\"/></svg>", i),
            path: format!("<path d=\"M{} 0h100v100z\"/>", i),
        });
    }
    icons
}

fn lin_table() -> Vec<(i32, i32)> {
    let mut lin = Vec::new();
    for angle in 0..360u16 {
        let rad = (angle as f32 * std::f32::consts::PI) / 180.0;
        let (sin, cos) = rad.sin_cos();
        let x1 = (50.0 + 50.0 * cos).round() as i32;
        let y1 = (50.0 + 50.0 * sin).round() as i32;
        lin.push((x1, y1));
    }
    lin
}

fn scale_texts() -> Vec<String> {
    let mut out = Vec::new();
    for sz in 34..45u32 {
        let mut b = ryu::Buffer::new();
        out.push(b.format(sz as f32 / 1024.0).to_string());
    }
    out
}

fn make_scene(w: u32, h: u32, num: usize) -> Scene {
    let icons = icon_set(12);
    let lin = lin_table();
    let mut scene = Scene::new(w, h, num, icons.len(), &lin);
    let ops: Vec<String> = (0..scene.order.len())
        .map(|k| if k < num { "0.9".to_string() } else { "0.5".to_string() })
        .collect();
    scene.place_all(&icons, &scale_texts(), &ops, &lin);
    scene
}

fn make_captcha(w: u32, h: u32, num: usize) -> Captcha {
    render(make_scene(w, h, num)).unwrap()
}

#[test]
fn test_verify() {
    let captcha = make_captcha(300, 300, 3);
    let clicks: Vec<(i32, i32)> = captcha
        .positions
        .iter()
        .map(|&(x, y, sz)| (x + (sz as i32 / 2), y + (sz as i32 / 2)))
        .collect();
    assert!(verify(&clicks, &captcha.positions));

    let bad_clicks = vec![(0, 0), (0, 0), (0, 0)];
    assert!(!verify(&bad_clicks, &captcha.positions));
}

#[test]
fn scene_has_targets_and_distractors() {
    let scene = make_scene(300, 200, 3);
    assert_eq!(scene.positions.len(), 3);
    assert_eq!(scene.icons.len(), 3);
    let extra = scene.all_positions.len() - 3;
    assert!((3..=6).contains(&extra));
    assert_eq!(scene.all_positions.len(), scene.order.len());
    for (k, &i) in scene.order.iter().enumerate() {
        assert!(i < 12);
        assert!(!scene.order[..k].contains(&i));
    }
    for &(x, y, sz) in &scene.all_positions {
        assert!((34..=44).contains(&sz));
        assert!(x >= 20 && x < (300 - sz as i32 - 20).max(21));
        assert!(y >= 20 && y < (200 - sz as i32 - 20).max(21));
    }
    assert_eq!(&scene.positions[..], &scene.all_positions[..3]);
    let icons = icon_set(12);
    for k in 0..3 {
        assert_eq!(scene.icons[k], icons[scene.order[k]].raw);
        let path = &icons[scene.order[k]].path;
        assert!(scene.body.contains(&format!("filter=\"url(#shadow)\">{}</g></g>", path)));
    }
    assert!((4..=6).contains(&scene.palette.len()));
}

#[test]
fn scene_markup_holds_every_icon() {
    let scene = make_scene(300, 300, 2);
    for k in 0..scene.order.len() {
        let gid = format!("id=\"g{}\"", k);
        assert!(scene.defs.contains(&gid));
        let (x, y, _) = scene.all_positions[k];
        let tr = format!("<g transform=\"translate({},{}) scale(", x, y);
        assert!(scene.body.contains(&tr));
    }
    assert!(scene.defs.starts_with("<"));
    assert!(scene.defs.contains("id=\"bg0\""));
    assert!(scene.defs.contains("<filter id=\"shadow\""));
    assert!(scene.body.starts_with("<rect width=\"300\" height=\"300\" fill=\"url(#bg0)\" stroke=\"none\"/>"));
}

#[test]
fn render_encodes_webp() {
    let scene = make_scene(120, 100, 1);
    let defs = scene.defs.clone();
    let body = scene.body.clone();
    let positions = scene.positions.clone();
    let c = render(scene).unwrap();
    assert_eq!(&c.webp[0..4], b"RIFF");
    assert_eq!(&c.webp[8..12], b"WEBP");
    let expected = format!(
        "<svg width=\"120\" height=\"100\" viewBox=\"0 0 120 100\" xmlns=\"http://www.w3.org/2000/svg\"><defs>{}</defs><g filter=\"url(#f_noise)\">{}</g></svg>",
        defs, body
    );
    assert_eq!(c.svg, expected);
    assert_eq!(c.positions, positions);
}

#[test]
fn finish_keeps_targets() {
    let scene = make_scene(200, 200, 2);
    let positions = scene.positions.clone();
    let icons = scene.icons.clone();
    let c = scene.finish();
    assert!(c.webp.is_empty());
    assert_eq!(c.positions, positions);
    assert_eq!(c.icons, icons);
    assert!(c.svg.starts_with("<svg width=\"200\" height=\"200\" viewBox=\"0 0 200 200\""));
}

#[test]
fn small_canvas_still_places_icons() {
    let scene = make_scene(50, 50, 1);
    for &(x, y, _) in &scene.all_positions {
        assert_eq!(x, 20);
        assert_eq!(y, 20);
    }
}

#[test]
fn encode_rejects_garbage() {
    let r = svg_captcha::webp::encode("not an svg document");
    assert!(matches!(r, Err(svg_captcha::CaptchaError::Usvg(_))));
}

#[test]
fn encode_rejects_a_canvas_under_one_pixel() {
    let r = svg_captcha::webp::encode("<svg width=\"0.5\" height=\"10\" xmlns=\"http://www.w3.org/2000/svg\"></svg>");
    assert!(matches!(r, Err(svg_captcha::CaptchaError::PixmapNew)));
}

#[test]
fn encode_plain_document() {
    let r = svg_captcha::webp::encode(
        "<svg width=\"16\" height=\"8\" xmlns=\"http://www.w3.org/2000/svg\"><rect width=\"8\" height=\"8\" fill=\"red\"/></svg>",
    )
    .unwrap();
    assert!(r.len() > 12);
    assert_eq!(&r[0..4], b"RIFF");
    assert_eq!(&r[8..12], b"WEBP");
}

#[test]
fn attach_image_passes_the_outcome_on() {
    let c = make_scene(100, 100, 1).finish();
    let svg = c.svg.clone();
    let positions = c.positions.clone();
    let d = svg_captcha::attach_image(c, Ok(vec![1, 2, 3])).unwrap();
    assert_eq!(d.svg, svg);
    assert_eq!(d.webp, vec![1, 2, 3]);
    assert_eq!(d.positions, positions);
    let c = make_scene(100, 100, 1).finish();
    let r = svg_captcha::attach_image(c, Err(svg_captcha::CaptchaError::Encode));
    assert!(matches!(r, Err(svg_captcha::CaptchaError::Encode)));
}

#[test]
fn svg_to_pixmap_filters_the_raster() {
    let svg = "<svg width=\"40\" height=\"30\" xmlns=\"http://www.w3.org/2000/svg\"><rect width=\"20\" height=\"30\" fill=\"blue\"/></svg>";
    let (w, h, d) = svg_captcha::raster::svg_to_pixmap(svg).unwrap();
    assert_eq!((w, h), (40, 30));
    assert_eq!(d.len(), 40 * 30 * 4);
    assert!(d.chunks_exact(4).all(|p| p[3] == 255));
}

#[test]
fn svg_to_pixmap_refuses_a_one_pixel_wide_canvas() {
    let svg = "<svg width=\"1\" height=\"30\" xmlns=\"http://www.w3.org/2000/svg\"></svg>";
    assert!(matches!(svg_captcha::raster::svg_to_pixmap(svg), Err(svg_captcha::CaptchaError::Canvas)));
    assert!(matches!(svg_captcha::raster::svg_to_pixmap("nope"), Err(svg_captcha::CaptchaError::Usvg(_))));
}

#[test]
fn filter_pixels_checks_the_size() {
    let r = svg_captcha::raster::filter_pixels(1, 1, vec![0, 0, 0, 255]);
    assert!(matches!(r, Err(svg_captcha::CaptchaError::Canvas)));
    let (w, h, d) = svg_captcha::raster::filter_pixels(3, 2, vec![200; 24]).unwrap();
    assert_eq!((w, h, d.len()), (3, 2, 24));
    assert!(d.chunks_exact(4).all(|p| p[3] == 200));
}
