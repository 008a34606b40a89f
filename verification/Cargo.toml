[package]
name = "myapp"
version = "0.1.0"
edition = "2021"
publish = false

[dependencies]
jsonwebtoken = { version = "=11.1.0", features = ["rust_crypto"] }
bcrypt = "=0.19.3"
chrono = "=0.4.45"
axum = "=0.8.9"
axum-extra = { version = "=0.12.6", features = ["cookie", "typed-header"] }
cookie = "=0.18.2"
tokio = { version = "=1.53.2", features = ["rt-multi-thread", "macros", "sync", "net"] }
sqlx = { version = "=0.9.0", features = ["postgres", "runtime-tokio", "uuid"] }
serde = { version = "=1.0.229", features = ["derive"] }
uuid = { version = "=1.27.0", features = ["v4"] }
rayon = "=1.12.0"
num = "=0.4.3"
