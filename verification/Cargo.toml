[package]
name = "geoworker"
version = "0.1.0"
edition = "2021"
publish = false

[dependencies]
json = "=0.12.4"
sha2 = "=0.8.2"
jsonwebtoken = { version = "=10.4.0", default-features = false, features = ["rust_crypto"] }
chrono = "=0.4.45"
rand = "=0.7.3"
bson = "=2.15.0"
serde = { version = "=1.0.229", features = ["derive"] }
serde_json = "=1.0.154"
rocket = "=0.5.2"
rocket_cors = "=0.6.0"
mongodb = "=2.8.2"
