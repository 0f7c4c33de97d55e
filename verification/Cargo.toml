[package]
name = "ffxiv_scene"
version = "0.1.0"
edition = "2021"
publish = false

[dependencies]
physis = "=0.6.0"
euclid = "=0.22.14"
ironworks = { version = "=0.4.1", features = ["mdl", "mtrl"] }
deku = "=0.20.3"
