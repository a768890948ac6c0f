[package]
name = "videoclub-core"
version = "0.1.0"
edition = "2021"
publish = false

[dependencies]
regex = "1"
sha2 = "0.10"
directories = "6"
serde = { version = "1", features = ["derive"] }
serde_json = "1"
walkdir = "2"
bytes = "1"
log = "0.4"
reqwest = { version = "0.12", default-features = false, features = ["rustls-tls", "json"] }
tokio = { version = "1", features = ["rt-multi-thread", "sync"] }
async-channel = "2"
glib = "0.20"
gio = "0.20"
gtk4 = { version = "0.9", features = ["gnome_47"] }
libadwaita = { version = "0.7", features = ["v1_6"] }
gstreamer = "0.23"
gettext-rs = "0.7"
