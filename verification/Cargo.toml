[package]
name = "rx11"
version = "0.1.0"
edition = "2021"
publish = false

[dependencies]
zstd = "*"
lz4_flex = "*"
flate2 = "*"
rand = "*"
hex = "*"
uuid = { version = "*", features = ["v4"] }
bytes = "*"
serde = { version = "*", features = ["derive"] }
serde_json = "*"
tokio = { version = "*", features = ["full"] }
clap = { version = "*", features = ["derive", "env"] }
toml = "*"
tracing = "*"
tracing-subscriber = { version = "*", features = ["env-filter"] }
anyhow = "*"
thiserror = "*"
async-trait = "*"
libc = "*"
