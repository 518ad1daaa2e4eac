[package]
name = "sps2"
version = "0.1.0"
edition = "2021"
publish = false

[dependencies]
semver = "1"
uuid = "1"
blake3 = "1"
serde = { version = "1", features = ["derive"] }
tokio = { version = "1", features = ["fs", "io-util", "process", "sync", "rt", "macros", "time"] }
chrono = { version = "0.4", default-features = false, features = ["clock"] }
tar = "0.4"
zip = { version = "*", default-features = false, features = ["deflate"] }
tempfile = "3"
ignore = "0.4"
async-compression = { version = "0.4", features = ["tokio", "gzip", "bzip2", "xz"] }
