[package]
name = "core_node"
version = "0.1.0"
edition = "2021"
publish = false

[dependencies]
chrono = "*"
dirs = "*"
futures = "*"
git2 = { version = "*", default-features = false }
gix-url = "*"
nix = { version = "*", features = ["net", "signal"] }
parking_lot = "*"
rand = "*"
serde = { version = "*", features = ["derive"] }
serde_json5 = "*"
sha2 = "*"
sysinfo = "*"
tempfile = "*"
tokio = { version = "*", features = ["rt", "macros", "sync", "time"] }
tokio-util = "*"
tracing = "*"
ureq = { version = "*", default-features = false }
url = "*"
