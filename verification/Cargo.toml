[package]
name = "me3_mod"
version = "0.1.0"
edition = "2021"
publish = false

[dependencies]
regex = "=1.13.1"
serde = { version = "=1.0.229", features = ["derive"] }
serde_with = { version = "=3.24.0", features = ["schemars_1"] }
schemars = "=1.2.3"
thiserror = "=2.0.21"
eyre = "=0.6.14"
libloading = "=0.8.9"
tracing = "=0.1.44"
either = "=1.19.0"
dearxan = "*"
