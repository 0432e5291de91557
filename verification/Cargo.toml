[package]
name = "audiotools"
version = "0.1.0"
edition = "2021"
publish = false

[dependencies]
anyhow = "1"
byteorder = "1"
clap = { version = "4", features = ["derive"] }
csv = "1"
ebur128 = "0.1"
hound = "3"
indicatif = "0.17"
plotters = "0.3"
rand = "0.8"
rodio = "0.19"
rustfft = "6"
serde = { version = "1", features = ["derive"] }
serde_json = "1"
serde_yaml = "0.9"
smartcore = "*"
symphonia = "0.5"
thiserror = "*"
tokio = { version = "1", features = ["macros", "rt-multi-thread"] }
walkdir = "2"
