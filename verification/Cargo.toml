[package]
name = "canteen_core"
version = "0.1.0"
edition = "2021"
publish = false

[dependencies]
anyhow = "*"
argon2 = { version = "=0.5.3", features = ["std"] }
axum = "*"
bigdecimal = "=0.4.11"
chrono = "=0.4.45"
clap = { version = "*", features = ["derive", "env"] }
email_address = "=0.2.9"
hmac = "=0.12.1"
serde = { version = "*", features = ["derive"] }
sha2 = "=0.10.9"
sqlx = { version = "*", default-features = false, features = ["runtime-tokio", "mysql", "chrono", "bigdecimal"] }
tokio = { version = "*", features = ["rt-multi-thread", "macros", "net"] }
tower-http = { version = "*", features = ["trace"] }
tracing = "*"
tracing-subscriber = { version = "*", features = ["env-filter"] }

[dev-dependencies]
base64 = "=0.13.1"
jwt = "=0.16.0"
serde_json = "*"
