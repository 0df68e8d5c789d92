[package]
name = "heimdallr"
version = "0.1.0"
edition = "2021"
publish = false

[dependencies]
bincode = "1.3"
serde = { version = "1", features = ["derive"] }
serde_json = "1"
local_ipaddress = "*"
pnet = "*"
gethostname = "*"
