[package]
name = "mikros"
version = "0.1.0"
edition = "2021"
publish = false

[dependencies]
tokio = { version = "1", features = ["rt-multi-thread", "macros", "signal", "sync", "time"] }
serde = "1"
serde_derive = "1"
serde_json = "1"
toml = "*"
async-trait = "*"
