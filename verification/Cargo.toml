[package]
name = "js_gui_rs"
version = "0.1.0"
edition = "2021"
publish = false

[dependencies]
png = "0.15"
rustc-serialize = "0.3"
websocket = { version = "0.27", default-features = false, features = ["sync"] }
