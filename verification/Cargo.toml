[package]
name = "paperlog"
version = "0.1.0"
edition = "2021"
publish = false

[dependencies]
chrono = "*"
parking_lot = "*"
rustc-hash = "*"
log = "*"
thiserror = "*"
tracing = "*"
tracing-subscriber = "*"
tracing-error = "*"
