[package]
name = "ulua_rt"
version = "0.1.0"
edition = "2021"
publish = false

[dependencies]
serde = "1"
strum = { version = "*", features = ["derive"] }
thiserror = "*"
futures-util = "0.3"
