[package]
name = "short_url"
version = "0.1.0"
edition = "2021"
publish = false

[dependencies]
async-trait = "0.1"
chrono = { version = "0.4", default-features = false, features = ["clock"] }
log = "0.4"
sqlx = { version = "0.8", default-features = false, features = ["mysql", "runtime-tokio"] }
