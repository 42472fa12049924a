[package]
name = "editer"
version = "0.1.0"
edition = "2021"
publish = false

[dependencies]
arrayvec = "0.7"
smallvec = "1"
tinyvec = { version = "1", features = ["alloc"] }
