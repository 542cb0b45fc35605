[package]
name = "filethings"
version = "0.1.0"
edition = "2021"
publish = false

[dependencies]
regex = "=1.13.1"
dirs = "=5.0.1"
uuid = { version = "=1.29.0", features = ["v4"] }
md5 = "=0.7.0"
sha1 = "=0.10.7"
sha2 = "=0.10.9"
base64 = "=0.22.1"
serde_json = "=1.0.154"
log = "=0.4.34"
zip = { version = "=2.6.1", default-features = false, features = ["deflate"] }
trash = "=5.2.9"
reqwest = { version = "=0.12.28", default-features = false, features = ["stream"] }
tokio = { version = "=1.54.1", features = ["fs", "io-util", "rt", "time"] }
futures = "=0.3.34"
chrono = "0.4"
xattr = "1"
kamadak-exif = "0.5"
ttf-parser = "0.24"
image = { version = "0.25", default-features = false, features = ["png", "jpeg", "gif", "bmp", "webp", "tiff", "ico"] }
resvg = { version = "0.41", default-features = false }
vtracer = { version = "0.6", default-features = false }
