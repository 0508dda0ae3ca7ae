[package]
name = "falling_sand"
version = "0.1.0"
edition = "2021"
publish = false

[dependencies]
fastrand = "1"
rapier2d = "0.17"
serde = { version = "1", features = ["derive"] }
specs = "*"
