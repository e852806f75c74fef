[package]
name = "backend"
version = "0.1.0"
edition = "2021"
publish = false

[dependencies]
sha2 = "0.10"
hex = "0.4"
uuid = { version = "1", features = ["v4", "serde"] }
chrono = { version = "0.4", default-features = false, features = ["clock", "serde", "std"] }
serde = { version = "1", features = ["derive"] }
serde_json = "1"
sqlx = { version = "0.8", default-features = false, features = ["postgres", "runtime-tokio", "macros", "uuid", "chrono", "json"] }
actix-web = { version = "4", default-features = false, features = ["macros"] }
reqwest = { version = "0.12", default-features = false }
tokio = { version = "1", features = ["rt", "macros", "time"] }
tracing = "0.1"
async-trait = "0.1"
validator = { version = "0.18", features = ["derive"] }
