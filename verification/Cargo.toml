[package]
name = "abest_os"
version = "0.1.0"
edition = "2021"
publish = false

[dependencies]
spin = "0.9"
volatile = "0.2"
x86_64 = { version = "0.14", default-features = false, features = ["instructions"] }
pic8259 = "0.10"
