[package]
name = "asterisk_ami"
version = "0.1.0"
edition = "2021"
publish = false

[dependencies]
tokio = { version = "*", features = ["full"] }
log = "*"
simple_logger = "*"
clap = "*"
dotenv = "*"
