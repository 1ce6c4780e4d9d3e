[package]
name = "classroom_auth"
version = "0.1.0"
edition = "2021"
publish = false

[dependencies]
sha256 = { version = "1", default-features = false }
lazy_static = "1"
actix-web = { version = "4", default-features = false, features = ["macros"] }
serde = { version = "1", features = ["derive"] }
serde_json = "1"
futures = "0.3"
sqlx = { version = "0.8", default-features = false, features = ["runtime-tokio", "mysql"] }
