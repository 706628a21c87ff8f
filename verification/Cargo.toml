[package]
name = "thin_edge"
version = "0.1.0"
edition = "2021"
publish = false

[dependencies]
serde_json = { version = "1", features = ["preserve_order"] }
serde = { version = "1", features = ["derive"] }
anyhow = "1"
thiserror = "1"
structopt = "0.3"
chrono = "0.4"
rcgen = "0.8"
x509-parser = "0.9"
zeroize = "1"
toml = "0.5"
tokio = { version = "1", features = ["rt", "macros", "time", "process", "sync"] }
tracing = "0.1"
log = "0.4"
