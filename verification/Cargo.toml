[package]
name = "mizan"
version = "0.1.0"
edition = "2021"
publish = false

[dependencies]
rust_decimal = { version = "=1.43.0", features = ["maths"] }
rust_decimal_macros = "=1.40.0"
chrono = "=0.4.45"
serde = { version = "=1.0.229", features = ["derive"] }
serde_json = "=1.0.154"
base64 = "=0.22.1"
calamine = "=0.38.0"
thiserror = "=2.0.21"
uuid = { version = "=1.29.0", features = ["v4"] }
log = "=0.4.35"
async-trait = "=0.1.92"
reqwest = { version = "=0.12.28", default-features = false, features = ["json"] }
tokio = { version = "=1.54.1", features = ["rt", "macros", "sync"] }
