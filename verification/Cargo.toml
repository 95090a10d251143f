[package]
name = "asap"
version = "0.1.0"
edition = "2021"
publish = false

[dependencies]
jsonwebtoken = "9"
serde = { version = "1", features = ["derive"] }
serde_json = { version = "1", features = ["raw_value"] }
chrono = { version = "0.4", default-features = false, features = ["clock", "std"] }
rand = "0.8"
lru_time_cache = "0.11"
pem = "1"
reqwest = { version = "0.12", default-features = false }
tokio = { version = "1", features = ["macros", "rt-multi-thread"] }
clap = { version = "4", features = ["derive"] }
directories = "5"
anyhow = "1"
thiserror = "1"
hyper = { version = "0.14", features = ["server", "tcp", "http1"] }
