[package]
name = "funding_backend"
version = "0.1.0"
edition = "2021"
publish = false

[dependencies]
serde_json = { version = "*", features = ["arbitrary_precision"] }
rust_decimal = "*"
chrono = "*"
anyhow = "*"
tokio = { version = "*", features = ["rt-multi-thread", "macros"] }
reqwest = { version = "*", default-features = false, features = ["rustls-tls"] }
sqlx = { version = "*", default-features = false, features = ["runtime-tokio", "postgres", "chrono", "bigdecimal"] }
dotenv = "*"
bytes = "*"
