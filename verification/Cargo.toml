[package]
name = "coselpro"
version = "0.1.0"
edition = "2021"
publish = false

[dependencies]
postgrest = "*"
http = "*"
md5 = "*"
chrono = "*"
homedir = "*"
rpassword = "*"
serde = { version = "*", features = ["derive"] }
serde_json = "*"
tokio = { version = "*", features = ["rt-multi-thread", "macros"] }
