[package]
name = "shanan_cv"
version = "0.1.0"
edition = "2021"
publish = false

[dependencies]
cubecl = { version = "0.9", default-features = false, features = ["std"] }
thiserror = "2"
tracing = "0.1"

[dev-dependencies]
rand = "0.9"
