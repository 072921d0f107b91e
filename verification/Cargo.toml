[package]
name = "alure_sdk"
version = "0.1.0"
edition = "2021"
publish = false

[dependencies]
base64 = "0.22"
chrono = "0.4"
dirs = "*"
ed25519-dalek = { version = "2", features = ["pkcs8", "pem"] }
hostname = "*"
mac_address = "*"
reqwest = { version = "0.12", default-features = false, features = ["json"] }
serde = { version = "1", features = ["derive"] }
serde_json = "1"
sha2 = "0.10"
thiserror = "*"
tokio = { version = "1", features = ["fs"] }
urlencoding = "2"
uuid = { version = "1", features = ["v5"] }
whoami = "*"
