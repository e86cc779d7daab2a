[package]
name = "cardsync"
version = "0.1.0"
edition = "2021"
publish = false

[dependencies]
anyhow = "*"
chrono = "*"
dotenvy = "*"
reqwest = { version = "*", default-features = false }
serde = { version = "*", features = ["derive"] }
serde_json = "*"
sqlx = { version = "*", default-features = false, features = ["runtime-tokio", "postgres", "chrono"] }
tokio = { version = "*", features = ["macros", "rt-multi-thread"] }
zip = { version = "*", default-features = false, features = ["deflate"] }
