[package]
name = "mailcore"
version = "0.1.0"
edition = "2021"
publish = false

[dependencies]
ahash = "=0.8.12"
compact_str = "=0.10.0"
mail-auth = { version = "=0.12.1", default-features = false, features = ["ring", "report", "rkyv", "arc"] }
mail-parser = "=0.11.9"
mail-send = { version = "=0.6.2", default-features = false, features = ["ring"] }
rkyv = "=0.8.18"
serde = { version = "=1.0.229", features = ["derive"] }
serde_json = "=1.0.154"
smtp-proto = "=0.2.5"
tokio = { version = "=1.54.1", features = ["rt", "macros", "io-util", "sync", "time"] }
tracing = "=0.1.44"
