[package]
name = "cutekit"
version = "0.1.0"
edition = "2021"
publish = false

[dependencies]
nalgebra = "0.33"
libm = "0.2"
heapless = "0.8"
bytemuck = { version = "1", features = ["derive"] }
