[package]
name = "trapperkeeper"
version = "0.1.0"
edition = "2021"
publish = false

[dependencies]
rand = "0.8"
jwt = "0.16"
hmac = "0.12"
sha2 = "0.10"
serde = { version = "1", features = ["derive"] }
serde_json = "1"
actix-web = "4"
actix-files = "0.6"
sqlx = { version = "0.7", default-features = false, features = ["sqlite", "runtime-tokio", "migrate"] }
handlebars = "4"
config = { version = "0.13", default-features = false, features = ["yaml"] }
env_logger = "0.10"
log = "0.4"
futures-util = "0.3"
derive_more = "0.99"
