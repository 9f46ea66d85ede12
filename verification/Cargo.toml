[package]
name = "llm-browser-testkit"
version = "0.1.2"
edition = "2021"
publish = false

[dependencies]
anyhow = "=1.0.104"
aws-config = "=1.13.0"
aws-credential-types = { version = "=1.3.1", features = ["hardcoded-credentials"] }
aws-sigv4 = "=1.6.4"
aws-smithy-runtime-api = { version = "=1.19.2", features = ["client"] }
base64 = "=0.22.1"
clap = { version = "=4.6.7", features = ["derive", "env"] }
headless_chrome = "=1.0.22"
http-body-util = "=0.1.5"
hyper = { version = "=1.12.0", features = ["http1", "server"] }
hyper-util = { version = "=0.1.21", features = ["tokio"] }
image = { version = "=0.25.10", default-features = false, features = ["jpeg", "png"] }
reqwest = { version = "=0.12.28", default-features = false, features = ["json", "rustls-tls"] }
serde = { version = "=1.0.229", features = ["derive"] }
serde_json = "=1.0.154"
tokio = { version = "=1.54.1", features = ["macros", "net", "process", "rt", "rt-multi-thread", "sync", "time"] }
toml = "=0.8.23"
