[package]
name = "ithmb_core"
version = "0.1.0"
edition = "2021"
publish = false

[dependencies]
zune-jpeg = "0.5"
lru = "0.13"
png = "0.17"
anyhow = "1"
thiserror = "2"
clap = { version = "4", features = ["derive"] }
