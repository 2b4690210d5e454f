[package]
name = "wampire"
version = "0.1.0"
edition = "2021"
publish = false

[dependencies]
rand = "*"
serde = "*"
serde_json = { version = "*", features = ["preserve_order"] }
rmp-serde = "*"
rmp = "*"
ws = "*"
futures = "*"
argparse = "*"
url = "*"
log = "*"
env_logger = "*"
