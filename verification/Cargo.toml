[package]
name = "inline_sql"
version = "0.1.0"
edition = "2021"
publish = false

[dependencies]
proc-macro2 = "*"
quote = "*"
syn = { version = "*", features = ["full"] }
tokio-postgres = "*"
futures = "*"
