[package]
name = "niu_code"
version = "0.1.0"
edition = "2021"
publish = false

[dependencies]
actix-http = "3"
actix-web = { version = "4", default-features = false, features = ["macros"] }
actix-ws = "0.3"
anyhow = "1"
arc-swap = "1"
async-trait = "0.1"
bytestring = "1"
chrono = { version = "0.4", features = ["serde"] }
derive_more = { version = "*", features = ["display", "from"] }
dirs = "*"
futures-core = "0.3"
ignore = "0.4"
mime_guess = "2"
nanoid = "0.4"
notify = "*"
serde = { version = "1", features = ["derive"] }
serde_json = "1"
tokio = { version = "1", features = ["rt-multi-thread", "macros", "process", "io-util", "sync", "time", "fs", "signal"] }
tokio-stream = "0.1"
tokio-util = { version = "0.7", features = ["codec"] }
tracing = "0.1"
tracing-subscriber = "0.3"
which = "*"
