[package]
name = "workbuddy_theme_switcher"
version = "1.6.4"
edition = "2021"
publish = false

[dependencies]
sha2 = "=0.10.9"
uuid = { version = "1", features = ["v4"] }
url = "2"
serde = { version = "1", features = ["derive"] }
serde_json = "1"
chrono = "0.4"
tungstenite = "0.26"
ureq = { version = "2", default-features = false, features = ["json"] }
image = { version = "0.25", default-features = false, features = ["png", "jpeg", "webp"] }
