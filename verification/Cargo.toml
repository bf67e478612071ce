[package]
name = "palemachine"
version = "0.1.0"
edition = "2021"
publish = false

[dependencies]
base64 = "0.22"
serde = { version = "1", features = ["derive"] }
serde_json = "1"
toml = "0.8"
tokio = { version = "1", features = ["rt-multi-thread", "macros", "process", "fs"] }
reqwest = { version = "0.12", default-features = false, features = ["json", "rustls-tls"] }
actix = "0.13"
actix-web = "4"
actix-web-actors = "4"
chrono = "0.4"
dotenvy = "0.15"
rusqlite = { version = "0.31", features = ["bundled"] }
uuid = { version = "1", features = ["v4", "serde"] }
webauthn-rs = "0.5"
