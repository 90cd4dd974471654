[package]
name = "mercado"
version = "0.1.0"
edition = "2021"
publish = false

[dependencies]
rust_decimal = "1"
chrono = { version = "0.4", default-features = false, features = ["std", "clock", "serde"] }
serde = { version = "1", features = ["derive"] }
serde_json = "1"
async-trait = "0.1"
tokio = { version = "1", features = ["sync", "macros", "rt", "time"] }
reqwest = { version = "0.12", default-features = false, features = ["json"] }
base64 = "0.22"
prost = "0.13"
futures-util = { version = "0.3", default-features = false, features = ["sink", "std"] }
tokio-tungstenite = { version = "0.26", default-features = false, features = ["connect"] }
