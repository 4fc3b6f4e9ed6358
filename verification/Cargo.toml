[package]
name = "grd"
version = "0.1.0"
edition = "2021"
publish = false

[dependencies]
tempfile = "*"
zip = { version = "*", default-features = false, features = ["deflate"] }
flate2 = "*"
tar = "*"
ureq = { version = "*", features = ["json"] }
serde = { version = "*", features = ["derive"] }
clap = { version = "*", features = ["derive"] }
anyhow = "*"
indicatif = "*"
