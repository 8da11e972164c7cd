[package]
name = "tf2_price"
version = "0.1.0"
edition = "2021"
publish = false

[dependencies]
auto_ops = "*"
serde = { version = "1", features = ["derive"] }
