[package]
name = "tatg_parser"
version = "0.1.0"
edition = "2021"
publish = false

[dependencies]
chrono = "0.4"
toml = "0.8"
csv = "1"
serde = { version = "1", features = ["derive"] }
tokio = { version = "1", features = ["macros", "rt-multi-thread"] }
rbatis = "4"
rbdc-mssql = "4"
rbs = "4"
