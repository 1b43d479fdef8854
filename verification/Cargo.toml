[package]
name = "lambda_runtime_types"
version = "0.1.0"
edition = "2021"
publish = false

[dependencies]
serde = { version = "*", features = ["derive"] }
serde_json = "*"
tokio = { version = "*", features = ["full"] }
anyhow = "*"
async-trait = "*"
futures = "*"
log = "*"
simple_logger = "*"
lambda_runtime = "*"
aws-config = "*"
aws-sdk-secretsmanager = "*"
