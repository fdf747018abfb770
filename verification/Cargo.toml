[package]
name = "pixelflood"
version = "0.1.0"
edition = "2021"
publish = false

[dependencies]
futures = "*"
minifb = "*"
thiserror = "*"
tokio = { version = "*", features = ["net", "io-util", "rt-multi-thread", "macros", "time"] }
