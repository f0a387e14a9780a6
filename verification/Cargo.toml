[package]
name = "bpfman"
version = "0.1.0"
edition = "2021"
publish = false

[dependencies]
anyhow = "*"
aya = "*"
aya-obj = "*"
base64 = "*"
caps = "*"
chrono = "*"
clap = { version = "*", features = ["derive"] }
env_logger = "*"
flate2 = "*"
log = "*"
nix = { version = "*", features = ["sched"] }
object = "*"
oci-distribution = "*"
serde = { version = "*", features = ["derive"] }
serde_json = "*"
sled = "*"
tar = "*"
thiserror = "*"
tokio = { version = "*", features = ["rt-multi-thread", "macros", "sync"] }
