[package]
name = "static_file_types"
version = "0.1.0"
edition = "2021"
publish = false

[dependencies]
alloy-primitives = "*"
boyer-moore-magiclen = "*"
clap = { version = "*", features = ["derive"] }
derive_more = { version = "*", features = ["display"] }
eyre = "*"
reth-db-api = "*"
reth-fs-util = "*"
reth-node-types = "*"
reth-provider = "*"
serde = { version = "*", features = ["derive"] }
strum = { version = "*", features = ["derive"] }
tracing = "*"
