[package]
name = "lazy_archdemon"
version = "0.1.0"
edition = "2021"
publish = false

[dependencies]
fastrand = "2"
enum-iterator = "2"
bevy = { version = "0.13", default-features = false }
