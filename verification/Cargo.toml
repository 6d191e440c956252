[package]
name = "data_scraper"
version = "0.1.0"
edition = "2021"
publish = false

[dependencies]
calamine = "*"
scraper = "*"
serde = { version = "*", features = ["derive"] }
serde_json = "*"
reqwest = { version = "*", default-features = false, features = ["json", "rustls-tls"] }
sqlx = { version = "*", default-features = false, features = ["runtime-tokio", "postgres"] }
tokio = { version = "*", features = ["macros", "rt-multi-thread", "time", "signal"] }
google-cloud-pubsub = "*"
google-cloud-googleapis = "*"
anyhow = "*"
async-trait = "*"
log = "*"
env_logger = "*"
chrono = { version = "*", features = ["serde"] }
tempfile = "*"

[dev-dependencies]
rust_xlsxwriter = "*"
