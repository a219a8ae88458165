[package]
name = "copt_ledger"
version = "0.1.0"
edition = "2021"
publish = false

[dependencies]
sha2 = "0.10"
ed25519-dalek = "1"
rand = "0.8"
base64 = "0.21"
chrono = { version = "0.4", features = ["serde"] }
serde = { version = "1", features = ["derive"] }
serde_json = "1"
actix-web = { version = "4", default-features = false, features = ["macros"] }
jsonwebtoken = "9"
dotenvy = "0.15"
futures-util = "0.3"
clap = { version = "4", features = ["derive"] }
