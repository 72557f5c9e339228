[package]
name = "xtract"
version = "0.1.0"
edition = "2021"
publish = false

[dependencies]
sqlparser = "*"
datafusion = "*"
tokio = { version = "*", features = ["rt-multi-thread"] }
serde = { version = "*", features = ["derive"] }
serde_json = "*"
toml = "*"
reqwest = { version = "*", default-features = false, features = ["blocking", "json"] }
clap = { version = "*", features = ["derive"] }
encoding_rs = "*"
chardetng = "*"
indicatif = "*"
