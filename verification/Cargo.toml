[package]
name = "face_authd"
version = "0.1.0"
edition = "2021"
publish = false

[dependencies]
aes-gcm = "0.10"
base64 = "0.22"
bzip2 = "*"
jpeg-decoder = "0.3"
sha2 = "0.10"
anyhow = "1"
serde = { version = "1", features = ["derive"] }
serde_json = "1"
thiserror = "*"
tokio = { version = "1", features = ["rt-multi-thread", "macros", "net", "io-util"] }
tracing = "0.1"
tracing-subscriber = { version = "0.3", features = ["env-filter"] }
v4l = "*"
libc = "0.2"
pam-sys = "*"
keyutils = "*"
reqwest = { version = "0.12", default-features = false, features = ["blocking", "rustls-tls"] }
eframe = { version = "*", default-features = false, features = ["default_fonts", "glow", "x11"] }
