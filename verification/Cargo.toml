[package]
name = "frost_ceremony"
version = "0.1.0"
edition = "2021"
publish = false

[dependencies]
frost-core = { version = "=2.2.0", features = ["serde"] }
frost-ed25519 = { version = "=2.2.0", features = ["serde"] }
frost-ed448 = { version = "=2.2.0", features = ["serde"] }
hex = "=0.4.3"
rand = "=0.8.8"
serde_json = "=1.0.154"
clap = { version = "=4.6.7", features = ["derive"] }
tokio = { version = "=1.54.1", features = ["rt-multi-thread", "macros", "net", "io-util", "sync", "time"] }
async-trait = "=0.1.92"
eyre = "=0.6.14"
