[package]
name = "imv_tui"
version = "0.1.0"
edition = "2021"
publish = false

[dependencies]
kamadak-exif = "*"
image = { version = "0.25", default-features = false, features = ["png", "jpeg", "gif", "webp", "bmp", "tiff", "ico"] }
nucleo = "*"
zune-jpeg = "0.4"
zip = { version = "*", default-features = false, features = ["deflate"] }
crossterm = "*"
ratatui = "*"
ratatui-image = { version = "*", default-features = false, features = ["crossterm"] }
fast_image_resize = { version = "5", features = ["image"] }
serde = { version = "1", features = ["derive"] }
serde_json = "1"
libc = "0.2"
