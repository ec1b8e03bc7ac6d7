[package]
name = "only_cut"
version = "0.1.0"
edition = "2021"
publish = false

[dependencies]
serde = { version = "1", features = ["derive"] }
thiserror = "*"
tokio = { version = "1", features = ["fs", "io-util", "macros", "process", "rt", "sync"] }
trash = "*"
