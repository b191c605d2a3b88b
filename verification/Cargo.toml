[package]
name = "epub2txt"
version = "0.1.0"
edition = "2021"
publish = false

[dependencies]
zip = { version = "*", default-features = false, features = ["deflate"] }
kuchiki = "*"
clap = "*"
