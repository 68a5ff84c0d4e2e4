[package]
name = "colony_core"
version = "0.1.0"
edition = "2021"
publish = false

[dependencies]
cli-table = { version = "*", default-features = false }
js-sys = "*"
log = "0.4"
screeps-game-api = "*"
serde = { version = "1", features = ["derive"] }
serde_json = "1"
wasm-bindgen = "*"
