[package]
name = "moonclip"
version = "0.1.0"
edition = "2021"
publish = false

[dependencies]
dirs = "*"
global-hotkey = "*"
image = { version = "0.25", default-features = false, features = ["bmp", "gif", "ico", "jpeg", "png", "webp"] }
nix = { version = "*", features = ["signal"] }
obws = "*"
serde = { version = "1", features = ["derive"] }
serde_json = "1"
tokio = { version = "1", features = ["fs", "macros", "process", "rt-multi-thread", "sync", "time"] }
uuid = { version = "1", features = ["v4"] }
x11rb = "*"
