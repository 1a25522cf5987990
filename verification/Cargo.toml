[package]
name = "aas_edge"
version = "0.1.0"
edition = "2021"
publish = false

[dependencies]
actix-web = { version = "4", default-features = false, features = ["macros"] }
actix-cors = "0.7"
anyhow = "1"
base64 = "0.13"
chrono = "0.4"
clokwerk = "0.4"
env_logger = "0.11"
futures-util = "0.3"
mongodb = "2"
reqwest = { version = "0.11", default-features = false, features = ["json", "rustls-tls"] }
serde = { version = "1", features = ["derive"] }
serde_json = "1"
tokio = { version = "1", features = ["full"] }
