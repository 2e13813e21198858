[package]
name = "cliche"
version = "0.1.0"
edition = "2021"
publish = false

[dependencies]
image = { version = "0.25", default-features = false, features = ["png"] }
serde = { version = "1", features = ["derive"] }
global-hotkey = "0.7"

[dev-dependencies]
image = { version = "0.25", default-features = false, features = ["png", "bmp"] }
