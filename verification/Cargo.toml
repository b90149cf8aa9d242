[package]
name = "p2pg"
version = "0.1.0"
edition = "2021"
publish = false

[dependencies]
bytemuck = { version = "1", features = ["derive"] }
ggrs = "*"

[dev-dependencies]
sepax2d = "*"
