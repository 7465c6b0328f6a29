[package]
name = "restate_logic"
version = "0.1.0"
edition = "2021"
publish = false

[dependencies]
hashbrown = "*"
prost = { version = "*", features = ["derive"] }
bytes = "*"
tokio = { version = "*", features = ["sync", "time", "rt", "macros"] }
futures = "*"
anyhow = "*"
thiserror = "*"
serde = { version = "*", features = ["derive"] }
serde_json = "*"
serde_with = "*"
derive_builder = "*"
clap = { version = "*", features = ["derive"] }
schemars = "*"
tracing = "*"
drain = "*"
