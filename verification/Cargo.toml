[package]
name = "drip"
version = "0.1.0"
edition = "2021"
publish = false

[dependencies]
clap = { version = "=4.6.7", features = ["derive"] }
knuffel = "=3.2.0"
miette = { version = "=5.10.0", features = ["fancy"] }
simple-home-dir = { version = "*", features = ["expand_tilde"] }
thiserror = "=1.0.69"
