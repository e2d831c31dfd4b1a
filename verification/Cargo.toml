[package]
name = "exprlang"
version = "0.1.0"
edition = "2021"
publish = false

[dependencies]
anyhow = "1"
clap = { version = "4", features = ["derive"] }
colored = "2"
log = "0.4"
proptest = "1"
thiserror = "1"
