[package]
name = "roleplayer"
version = "0.1.0"
edition = "2021"
publish = false

[dependencies]
serde = { version = "1", features = ["derive"] }
serde_json = "1"
uuid = { version = "1", features = ["v4"] }
chrono = "0.4"
rand = "0.8"
rusqlite = { version = "*", features = ["bundled"] }
rusqlite_migration = "*"
thiserror = "*"
tracing = "0.1"
tracing-subscriber = { version = "0.3", features = ["env-filter", "fmt"] }
tokio = { version = "1", features = ["sync", "macros", "rt-multi-thread", "time"] }
futures = "0.3"
async-trait = "0.1"
reqwest = { version = "*", default-features = false, features = ["json", "stream", "rustls-tls"] }
keyring = "*"
directories = "*"
