[package]
name = "glyim"
version = "0.1.0"
edition = "2021"
publish = false

[dependencies]
sha2 = "0.10"
egg = "0.9"
serde = { version = "1", features = ["derive"] }
postcard = { version = "1", features = ["alloc"] }
