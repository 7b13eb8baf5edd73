[package]
name = "bcsfe"
version = "0.1.0"
edition = "2021"
publish = false

[dependencies]
md5 = "0.7"
hmac = "0.12"
sha2 = "0.10"
sha1 = "0.10"
getrandom = "0.3"
hex = "0.4"
serde = { version = "1", features = ["derive"] }
serde_json = "1"
thiserror = "2"
reqwest = { version = "0.12", default-features = false, features = ["blocking", "json", "multipart"] }
tar = "0.4"
xz2 = "0.1"
zip = { version = "2", default-features = false, features = ["deflate"] }
