[package]
name = "manga_cleaner"
version = "0.1.0"
edition = "2021"
publish = false

[dependencies]
ab_glyph = "*"
natord = "*"
image = "*"
imageproc = "*"
zip = "*"
anyhow = "*"
clap = { version = "*", features = ["derive"] }
libc = "*"
serde_json = "*"
reqwest = { version = "*", default-features = false, features = ["blocking", "json", "rustls-tls"] }
