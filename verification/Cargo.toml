[package]
name = "users_service"
version = "0.1.0"
edition = "2021"
publish = false

[dependencies]
uuid = { version = "*", features = ["v4"] }
rand = "*"
tide = "*"
sqlx = { version = "*", default-features = false, features = ["runtime-async-std", "postgres", "uuid"] }
async-std = { version = "*", features = ["attributes"] }
serde = { version = "*", features = ["derive"] }
serde_json = "*"
dotenv = "*"
pretty_env_logger = "*"
thiserror = "*"
