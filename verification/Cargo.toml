[package]
name = "sinsemilla"
version = "0.1.0"
edition = "2021"
publish = false

[dependencies]
group = "0.13"
pasta_curves = { version = "0.5", features = ["alloc"] }
subtle = "2.3"
