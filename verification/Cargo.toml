[package]
name = "gh_envoy"
version = "0.1.0"
edition = "2021"
publish = false

[dependencies]
chrono = { version = "=0.4.45", features = ["serde"] }
clap = { version = "=4.6.7", features = ["derive"] }
ctrlc = "=3.5.2"
fs4 = "=1.1.0"
globset = "=0.4.21"
process-wrap = { version = "=10.0.1", features = ["std"] }
serde = { version = "=1.0.229", features = ["derive"] }
serde_json = { version = "=1.0.154", features = ["preserve_order"] }
serde_yaml = "=0.9.34"
tempfile = "=3.27.0"
thiserror = "=2.0.21"
uuid = { version = "=1.29.0", features = ["serde", "v4"] }
