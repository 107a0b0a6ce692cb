[package]
name = "openworker_shell"
version = "0.1.0"
edition = "2021"
publish = false

[dependencies]
serde = { version = "1", features = ["derive"] }
serde_json = "1"
uuid = { version = "1", features = ["v4"] }
tauri = { version = "2", default-features = false, features = ["tray-icon"] }
tauri-plugin-autostart = "2"
