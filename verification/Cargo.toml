[package]
name = "jsonquery"
version = "0.1.0"
edition = "2021"
publish = false

[dependencies]
sqlparser = "*"
serde_json = "*"
json_value_merge = "*"
clap = { version = "*", features = ["derive"] }
