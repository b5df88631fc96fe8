[package]
name = "neotex"
version = "0.1.0"
edition = "2021"
publish = false

[dependencies]
finl_unicode = { version = "1", default-features = false, features = ["grapheme_clusters"] }
unicode-ident = "1"
rustc-hash = "2"
itertools = "*"
tracing = "0.1"
tracing-subscriber = "0.3"
