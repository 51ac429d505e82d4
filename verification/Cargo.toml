[package]
name = "auth_routes"
version = "0.1.0"
edition = "2021"
publish = false

[dependencies]
serde_json = "1"
warp = "0.3"
tokio = { version = "1", features = ["macros", "rt-multi-thread"] }
pretty_env_logger = "0.5"
