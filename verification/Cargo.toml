[package]
name = "turn_state_gateway"
version = "0.1.0"
edition = "2021"
publish = false

[dependencies]
base64 = "0.22"
chrono = "0.4"
chrono-tz = "0.10"
futures = "0.3"
getrandom = "0.3"
hex = "0.4"
reqwest = { version = "0.12", default-features = false, features = ["json", "stream"] }
secrecy = "0.10"
semver = "1"
serde = { version = "1", features = ["derive"] }
serde_json = "1"
sha2 = "0.10"
sqlx = { version = "0.8", default-features = false, features = ["postgres", "runtime-tokio", "json", "chrono"] }
tokio = { version = "1", features = ["rt", "macros", "sync", "time"] }
tracing = "0.1"
tungstenite = { version = "0.26", default-features = false, features = ["handshake"] }
url = "2"
uuid = { version = "1", features = ["v5", "v7"] }
zstd = "0.13"
