[package]
name = "svg_captcha"
version = "0.1.0"
edition = "2021"
publish = false

[dependencies]
fastrand = "=2.5.0"
itoa = "=1.0.18"
ryu = "=1.0.23"
svg2webp = "=0.1.17"
resvg = "=0.47.0"
usvg = "=0.47.0"
tiny-skia = "=0.12.0"
zenwebp = "=0.4.6"
thiserror = "=2.0.21"
