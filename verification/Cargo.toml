[package]
name = "mini_ledger"
version = "0.1.0"
edition = "2021"
publish = false

[dependencies]
actix-web = "4"
async-trait = "0.1"
aws-config = "1"
aws-sdk-dynamodb = "1"
bigdecimal = { version = "0.4", features = ["serde"] }
cassandra-cpp = "3"
chrono = "0.4"
env_logger = "0.11"
serde = { version = "1", features = ["derive"] }
tokio = { version = "1", features = ["sync", "macros", "rt-multi-thread"] }
uuid = { version = "1", features = ["v4", "serde"] }
