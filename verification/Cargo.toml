[package]
name = "iaue"
version = "0.1.0"
edition = "2021"
publish = false

[dependencies]
rustc_apfloat = "*"
fastrand = "2"
serde_json = "1"
clap = { version = "4", features = ["derive"] }
libloading = "0.8"
wav_io = "*"
