[package]
name = "epi"
version = "0.14.0"
edition = "2021"
publish = false

[dependencies]
egui = { version = "0.14", default-features = false, features = ["single_threaded"] }
ron = "0.6"
serde = "1"
