[package]
name = "user_profile"
version = "0.1.0"
edition = "2021"
publish = false

[dependencies]
anyhow = "1"
aws-sdk-dynamodb = "1"
base64 = "0.22"
lambda_http = "*"
serde_json = "1"
tokio = { version = "1", features = ["macros", "rt-multi-thread"] }
