[package]
name = "browsertools"
version = "0.1.0"
edition = "2021"
publish = false

[dependencies]
serde = { version = "1", features = ["derive"] }
serde_json = "1"
tokio = { version = "1", features = ["full"] }
rmcp = { version = "*", features = ["server", "transport-io"] }
schemars = "*"
clap = { version = "4", features = ["derive"] }
anyhow = "1"
thiserror = "*"
flate2 = "1"
tempfile = "3"
tracing = "0.1"
tracing-subscriber = { version = "0.3", features = ["env-filter"] }
url = "2"
which = "*"
futures-util = "0.3"
tokio-tungstenite = "*"
reqwest = { version = "*", default-features = false }
