[package]
name = "ncl"
version = "0.1.0"
edition = "2021"
publish = false

[dependencies]
md-5 = "0.10"
uuid = "1"
sysinfo = "0.30"
sha1 = "0.10"
hex = "0.4"
serde = { version = "1", features = ["derive"] }
serde_json = "1"
toml = "0.8"
zip = { version = "2", default-features = false, features = ["deflate"] }
tokio = { version = "1", features = ["rt-multi-thread", "macros", "process", "fs", "io-util", "sync", "time"] }
reqwest = { version = "0.12", default-features = false }
thiserror = "1"
anyhow = "1"
tracing = "0.1"
tracing-subscriber = { version = "0.3", features = ["env-filter"] }
async-trait = "0.1"
