[package]
name = "cosmic-locale"
version = "0.1.0"
edition = "2021"
publish = false

[dependencies]
open = "5"
thiserror = "2"
tokio = { version = "1", features = ["fs", "process", "io-util", "rt", "macros"] }
tracing = "0.1"
zbus = { version = "5", default-features = false, features = ["tokio"] }
