[package]
name = "sheet_ingest"
version = "0.1.0"
edition = "2021"
publish = false

[dependencies]
csv = "1"
serde_json = "1"
actix-web = { version = "4", default-features = false, features = ["macros"] }
reqwest = { version = "0.12", default-features = false, features = ["default-tls"] }
tokio = { version = "1", features = ["fs", "io-util"] }
