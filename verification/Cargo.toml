[package]
name = "klipo"
version = "0.1.0"
edition = "2021"
publish = false

[dependencies]
md-5 = "*"
base64 = "*"
image = { version = "*", default-features = false, features = ["png"] }
global-hotkey = "*"
serde = { version = "*", features = ["derive"] }
serde_json = "*"
log = { version = "*", features = ["kv", "kv_serde"] }
rusqlite = { version = "*", features = ["bundled"] }
clipboard-rs = "*"
enigo = "*"
tokio = { version = "*", features = ["time", "rt"] }
