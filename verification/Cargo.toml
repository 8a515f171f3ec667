[package]
name = "lambda_claps"
version = "0.1.0"
edition = "2021"
publish = false

[dependencies]
serde = "1"
serde_derive = "1"
serde_json = "1"
rusoto_core = { version = "0.48", default-features = false, features = ["rustls"] }
rusoto_dynamodb = { version = "0.48", default-features = false, features = ["rustls", "serialize_structs"] }
lambda_runtime = "0.4"
tokio = { version = "1", features = ["macros", "rt-multi-thread"] }
log = "0.4"
simple_logger = "4"
