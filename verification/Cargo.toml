[package]
name = "distronomicon"
version = "0.1.0"
edition = "2021"
publish = false

[dependencies]
regex = "1"
sha2 = "0.10"
serde = { version = "1", features = ["derive"] }
serde_json = "1"
reqwest = { version = "0.12", default-features = false, features = ["blocking", "json", "rustls-tls"] }
zip = { version = "2", default-features = false, features = ["deflate"] }
tar = "0.4"
flate2 = "1"
bzip2 = "*"
xz2 = "0.1"
zstd = "0.13"
fs2 = "0.4"
eframe = { version = "0.31", default-features = false, features = ["glow", "default_fonts", "x11"] }
