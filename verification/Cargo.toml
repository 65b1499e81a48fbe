[package]
name = "master_server"
version = "0.1.0"
edition = "2021"
publish = false

[dependencies]
ring = "=0.17.14"
uuid = { version = "=1.27.0", features = ["v4"] }
actix-web = { version = "=4.15.0", default-features = false, features = ["macros", "cookies"] }
actix-session = { version = "*", features = ["cookie-session"] }
argon2 = "*"
futures = "*"
sqlx = { version = "=0.7.4", default-features = false, features = ["runtime-tokio-rustls", "postgres", "chrono", "macros"] }
serde = { version = "=1.0.229", features = ["derive"] }
serde_json = "1"
chrono = { version = "0.4", default-features = false, features = ["clock", "serde"] }
once_cell = "*"
parking_lot = "*"
