[package]
name = "fart_analyzer"
version = "0.1.0"
edition = "2021"
publish = false

[dependencies]
rustfft = "6"
flutter_rust_bridge = "2"
