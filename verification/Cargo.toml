[package]
name = "mellow"
version = "0.1.0"
edition = "2021"
publish = false

[dependencies]
hmac = "=0.12.1"
sha2 = "=0.10.9"
hex = "=0.4.3"
serde = { version = "=1.0.229", features = ["derive"] }
serde_json = "=1.0.154"
serde_repr = "=0.1.21"
uuid = { version = "=1.29.0", features = ["serde"] }
rand = "=0.8.8"
chrono = { version = "=0.4.45", features = ["serde"] }
tokio = { version = "=1.54.1", features = ["rt-multi-thread", "macros", "sync", "time"] }
dashmap = "=6.2.1"
once_cell = "=1.21.4"
reqwest = { version = "=0.12.28", features = ["json"] }
url-escape = "=0.1.2"
twilight-model = "=0.16.0"
twilight-http = "=0.16.0"
twilight-gateway = "=0.16.0"
twilight-util = { version = "=0.16.0", features = ["builder"] }
twilight-validate = "=0.16.0"
actix-web = "4"
tracing = "0.1"
