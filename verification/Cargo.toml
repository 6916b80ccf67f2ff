[package]
name = "rescue_proto"
version = "0.1.0"
edition = "2021"
publish = false

[dependencies]
anyhow = "*"
clap = { version = "*", features = ["derive"] }
deser-hjson = "*"
log = "*"
serde = { version = "*", features = ["derive"] }
thiserror = "*"
