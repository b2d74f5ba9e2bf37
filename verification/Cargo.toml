[package]
name = "pluton"
version = "0.1.0"
edition = "2021"
publish = false

[dependencies]
ed25519-dalek = { version = "2.2", features = ["rand_core", "serde"] }
argon2 = "0.5"
aes-gcm = "0.10"
rand = "0.8"
urlencoding = "2"
serde = { version = "1", features = ["derive"] }
serde_json = "1"
serde_with = "3"
tokio = { version = "1", features = ["full"] }
tokio-tungstenite = "0.26"
futures-util = { version = "0.3", features = ["sink"] }
futures-channel = { version = "0.3", features = ["sink"] }
anyhow = "1"
chrono = "0.4"
confy = "0.6"
directories = "5"
jiff = "0.2"
reqwest = { version = "0.12", default-features = false, features = ["json", "multipart"] }
axum = { version = "0.8", features = ["multipart"] }
libsql = { version = "0.9", default-features = false, features = ["core"] }
cliclack = "0.3"
console = "0.15"
crossterm = { version = "0.28", features = ["event-stream"] }
ratatui = "0.29"
rfd = { version = "0.15", default-features = false, features = ["xdg-portal", "tokio"] }
infer = "0.19"
mime_guess = "2"
