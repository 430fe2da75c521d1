[package]
name = "perry-container-compose"
version = "0.1.0"
edition = "2021"
publish = false

[dependencies]
serde = { version = "1", features = ["derive"] }
serde_json = "1"
serde_yaml = "0.9"
md-5 = "0.10"
hex = "0.4"
rand = "0.8"
regex = "1"
tokio = { version = "1", features = ["process", "rt-multi-thread", "macros", "time", "io-util"] }
async-trait = "0.1"
clap = { version = "4", features = ["derive"] }
which = "6"
thiserror = "1"
tracing = "0.1"
tracing-subscriber = "0.3"
indexmap = { version = "2", features = ["serde"] }
anyhow = "1"
log = "0.4"
once_cell = "1"
dashmap = "6"
