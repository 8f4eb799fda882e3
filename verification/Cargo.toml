[package]
name = "atomlite"
version = "0.1.0"
edition = "2021"
publish = false

[dependencies]
serde = { version = "1", features = ["derive"] }
serde_json = "1"
sqlx = { version = "*", default-features = false, features = ["runtime-tokio", "sqlite"] }
thiserror = "1"

[dev-dependencies]
tokio = { version = "1", features = ["rt", "macros"] }
