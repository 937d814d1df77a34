[package]
name = "gsm"
version = "0.1.0"
edition = "2021"
publish = false

[dependencies]
aes-gcm = "0.10"
base64 = "0.22"
clap = { version = "4", features = ["derive"] }
colored = "*"
dotenvy = "*"
pbkdf2 = "0.12"
rand = "0.9"
reqwest = { version = "0.12", default-features = false, features = ["json"] }
serde = { version = "1", features = ["derive"] }
serde_json = "1"
serde_yaml = "0.9"
sha2 = "0.10"
sodiumoxide = "0.2"
thiserror = "*"
tokio = { version = "1", features = ["rt-multi-thread", "macros"] }

[dev-dependencies]
