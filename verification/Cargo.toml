[package]
name = "kapot"
version = "0.1.0"
edition = "2021"
publish = false

[dependencies]
uuid = { version = "*", features = ["v4"] }
url = "*"
tempfile = "*"
clap = { version = "*", features = ["derive"] }
serde = { version = "*", features = ["derive"] }
parse_arg = "*"
