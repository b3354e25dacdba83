[package]
name = "dashboard_svg"
version = "0.1.0"
edition = "2021"
publish = false

[dependencies]
regex = "*"
usvg = "*"
resvg = "*"
tiny-skia = "*"
image = { version = "*", default-features = false, features = ["bmp"] }
axum = "*"
tokio = { version = "*", features = ["full"] }
