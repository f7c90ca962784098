[package]
name = "mole"
version = "0.1.0"
edition = "2021"
publish = false

[dependencies]
zstd = "*"
glam = { version = "*", features = ["serde"] }
image = { version = "*", default-features = false }
serde = { version = "*", features = ["derive"] }

[dev-dependencies]
rmp-serde = "*"
