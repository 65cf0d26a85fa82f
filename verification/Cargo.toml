[package]
name = "anime_bot"
version = "0.1.0"
edition = "2021"
publish = false

[dependencies]
rand = "0.8"
strsim = "0.11"
chrono = "0.4"
serde = { version = "1", features = ["derive"] }
serde_json = "1"
reqwest = { version = "0.11", default-features = false, features = ["rustls-tls"] }
tokio = { version = "1", features = ["full"] }
poise = "0.6"
serenity = "0.12"
rusqlite = { version = "*", features = ["bundled"] }
warp = "0.3"
dotenvy = "0.15"
futures = "0.3"
rust-fuzzy-search = "0.1"
strum_macros = "0.26"
