[package]
name = "material_deploy"
version = "0.1.0"
edition = "2021"
publish = false

[dependencies]
chrono = { version = "0.4", features = ["serde"] }
reqwest = { version = "0.12", default-features = false, features = ["json", "rustls-tls"] }
serde = { version = "1", features = ["derive"] }
serde_json = "1"
tokio = { version = "1", features = ["fs"] }
url = "2"
walkdir = "2"
winreg = "*"
zip = { version = "0.6", default-features = false, features = ["deflate"] }
