[package]
name = "xodus"
version = "0.1.0"
edition = "2021"
publish = false

[dependencies]
chrono = "0.4"
ctrlc = "3"
env_logger = "0.11"
log = "0.4"
nix = { version = "*", features = ["signal", "process"] }
quick-xml = { version = "*", features = ["serialize"] }
reqwest = { version = "0.12", default-features = false }
rustix = { version = "1", features = ["fs"] }
serde = { version = "1", features = ["derive"] }
tempfile = "3"
tokio = { version = "1", features = ["full"] }
tokio-util = "0.7"
uuid = { version = "1", features = ["v4"] }
