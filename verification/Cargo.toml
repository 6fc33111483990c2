[package]
name = "avalon-sdk"
version = "0.1.0"
edition = "2021"
publish = false

[dependencies]
base64 = "0.22"
ed25519-dalek = "2"
url = "2"
reqwest = { version = "0.12", default-features = false, features = ["json"] }
serde = { version = "1", features = ["derive"] }
serde_json = "1"
time = { version = "0.3", features = ["serde", "parsing", "formatting"] }
uuid = { version = "1", features = ["v4", "serde"] }
tokio = { version = "1", features = ["time", "macros", "rt", "sync"] }
futures-util = "0.3"
rand = "0.9"
async-trait = "0.1"
thiserror = "2"
hex = "0.4"
