[package]
name = "impress"
version = "0.1.0"
edition = "2021"
publish = false

[dependencies]
chrono = "=0.4.45"
headers-accept = "=0.3.0"
image = { version = "=0.25.10", default-features = false, features = ["jpeg", "png", "webp"] }
libavif = "=0.14.0"
log = "=0.4.34"
log4rs = { version = "=1.4.0", default-features = false, features = ["file_appender", "pattern_encoder"] }
mediatype = "=0.21.0"
notify = "=6.1.1"
regex = "=1.13.1"
ron = "=0.8.1"
rusty_pool = "=0.7.0"
serde = { version = "=1.0.229", features = ["derive"] }
turbojpeg = { version = "=1.5.1", features = ["image"] }
urlencoding = "=2.1.3"
varnish = "=0.0.19"
walkdir = "=2.5.0"
webp = "=0.3.1"
