[package]
name = "photo_intake"
version = "0.1.0"
edition = "2021"
publish = false

[dependencies]
image = { version = "0.25", default-features = false, features = ["bmp", "gif", "ico", "jpeg", "png", "pnm", "tga", "tiff", "webp"] }
jxl-oxide = { version = "*", default-features = false, features = ["image"] }
jxl-bitstream = "*"
kamadak-exif = "*"
moxcms = "*"
once_cell = "*"
rawler = "0.7"
regex = "1"
serde = { version = "1", features = ["derive"] }
serde_json = "1"
tiff = "*"
