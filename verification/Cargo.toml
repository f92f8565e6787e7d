[package]
name = "hone"
version = "0.1.0"
edition = "2021"
publish = false

[dependencies]
base64 = "0.22"
flate2 = "1"
hmac = "0.12"
libloading = "0.8"
md-5 = "0.10"
once_cell = "1"
regex = "1"
rustls = { version = "0.23", default-features = false, features = ["std", "tls12"] }
rustls-rustcrypto = "0.0.2-alpha"
serde_json = "1"
sha1 = "0.10"
sha2 = "0.10"
tar = "0.4"
webpki-roots = "1"
zip = { version = "2", default-features = false, features = ["deflate"] }
