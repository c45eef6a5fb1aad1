[package]
name = "rusty_api"
version = "0.1.0"
edition = "2021"
publish = false

[dependencies]
jsonwebtoken = { version = "=11.1.0", features = ["rust_crypto"] }
bcrypt = "=0.19.3"
chrono = "=0.4.45"
actix-web = { version = "*", features = ["rustls-0_23"] }
actix-cors = "*"
actix-governor = "*"
actix-web-httpauth = "*"
rustls = { version = "*", default-features = false, features = ["ring", "logging", "std", "tls12"] }
sqlx = { version = "*", features = ["sqlite", "runtime-tokio"] }
serde = { version = "*", features = ["derive"] }
serde_json = "*"
dotenv = "*"
futures-util = "*"
log = "*"
once_cell = "*"
thiserror = "*"
uuid = { version = "*", features = ["v4"] }
