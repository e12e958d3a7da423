[package]
name = "sui_checkpoint_indexer"
version = "0.1.0"
edition = "2021"
publish = false

[dependencies]
anyhow = "=1.0.104"
async-trait = "=0.1.92"
chrono = { version = "=0.4.45", features = ["serde"] }
clap = { version = "=4.6.7", features = ["derive"] }
diesel = { version = "=2.2.12", features = ["postgres", "r2d2"] }
diesel-async = { version = "=0.5.2", features = ["bb8", "postgres", "async-connection-wrapper"] }
diesel_migrations = "=2.2.0"
dotenvy = "=0.15.7"
futures-util = { version = "=0.3.34", features = ["async-await-macro"] }
tokio = { version = "=1.54.1", features = ["full"] }
url = "=2.5.8"
