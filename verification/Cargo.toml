[package]
name = "letsgetbackrusty"
version = "0.1.0"
edition = "2021"
publish = false

[dependencies]
actix = "0.13"
actix-web = "4"
diesel = { version = "2", features = ["postgres", "r2d2", "uuid"] }
dotenv = "0.15"
env_logger = "0.10"
reqwest = { version = "0.11", features = ["json"] }
serde = { version = "1", features = ["derive"] }
serde_json = "1"
tracing = "0.1"
uuid = { version = "1", features = ["v4"] }
