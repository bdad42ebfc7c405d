[package]
name = "personars"
version = "0.1.0"
edition = "2021"
publish = false

[dependencies]
base64 = "=0.22.1"
chrono = "=0.4.45"
hex = "=0.4.3"
md-5 = "=0.11.0"
sha1 = "=0.11.0"
sha2 = "=0.11.1"
uuid = { version = "=1.29.0", features = ["v4", "v7"] }
rand = "=0.10.3"
regex = "=1.13.1"
serde = { version = "=1.0.229", features = ["derive"] }
serde_json = "=1.0.154"
serde_yaml = "=0.9.34"
toml = "=1.1.8"
similar = "=2.7.0"
qrcode = { version = "=0.14.1", default-features = false }
eframe = { version = "=0.33.3", default-features = false, features = ["default_fonts", "glow", "x11", "persistence"] }
egui-phosphor = "0.11"
egui_commonmark = "0.22"
