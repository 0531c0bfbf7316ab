[package]
name = "lmc_service"
version = "0.1.0"
edition = "2021"
publish = false

[dependencies]
actix-cors = "*"
actix-web = "4"
env_logger = "*"
lmc-assembly = "*"
serde = { version = "1", features = ["derive"] }
