[package]
name = "tollgate"
version = "0.1.0"
edition = "2021"
publish = false

[dependencies]
anyhow = "=1.0.104"
base64 = "=0.22.1"
blake3 = "=1.8.7"
bytes = "=1.12.1"
clap = { version = "=4.6.7", features = ["derive"] }
directories = "=6.0.0"
futures = "=0.3.34"
globset = "=0.4.21"
hex = "=0.4.3"
nix = { version = "=0.31.3", features = ["fs", "process", "signal", "socket", "user"] }
parking_lot = "=0.12.5"
rusqlite = { version = "=0.41.1", features = ["bundled", "backup"] }
serde = { version = "=1.0.229", features = ["derive"] }
serde_json = { version = "=1.0.154", features = ["preserve_order"] }
tempfile = "=3.27.0"
thiserror = "=2.0.21"
time = { version = "=0.3.55", features = ["formatting", "parsing", "serde"] }
tokio = { version = "=1.54.1", features = ["full"] }
tokio-util = { version = "=0.7.20", features = ["codec"] }
toml = "=1.1.8"
uuid = { version = "=1.29.0", features = ["v4", "v7", "serde"] }
