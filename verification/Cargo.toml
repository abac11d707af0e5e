[package]
name = "burn_in_zh_subtitles"
version = "0.1.6"
edition = "2021"
publish = false

[dependencies]
anyhow = "1"
clap = { version = "4", features = ["derive"] }
reqwest = { version = "0.12", default-features = false, features = ["blocking", "rustls-tls"] }
tar = "0.4"
thiserror = "2"
unicode-general-category = "1"
unicode-script = "0.5"
xz2 = "0.1"
zip = { version = "2", default-features = false, features = ["deflate"] }
