# svg_captcha

A click-the-icons CAPTCHA generator. A scene of decorative waves, ribbons
and gradient icons is composed as an SVG document; the user is given the
target icons and must click them in order; `verify` checks the clicks.

## Layout

- `src/` — the verified library (Verus):
  - `verify.rs` — the click check and its laws (centre clicks pass, a
    wrong number of clicks or a far click fails).
  - `render.rs` — the scene: palette, background, distinct icon choice,
    placement with collision avoidance, icon markup, the finished
    document; laws on complete scenes.
  - `color.rs`, `tmpl.rs`, `num.rs` — hues, palettes, gradients and the
    SVG templates, each with the exact text it writes.
  - `filter/` — in-place RGBA filters (oil strokes, vignette, wave warp,
    prism ribbons, metaball splashes, grain, watercolour) with exact
    specifications, and the chain that runs them; none touches alpha.
  - `webp.rs`, `error.rs`, `lib.rs` — encoding the document as WebP and
    the finished CAPTCHA.
  - `raster.rs` — rasterising the document with resvg and running the
    filter chain on its pixels.
  - `attempts.rs` — the retry decision of the entry point.
  - `random.rs` — the trusted contracts of the `fastrand` calls.
- `app/` — host code: the floating-point decorative layers, written-out
  float texts, the sine table, WebP encoding of raw pixels, the VHS
  effect, and the retrying entry point (a synchronous loop that also
  retries an attempt that panicked).
- `tests/` — tests of the library.
