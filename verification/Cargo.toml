[package]
name = "demiurgos"
version = "0.1.0"
edition = "2021"
publish = false

[dependencies]
anyhow = "=1.0.104"
clap = { version = "=4.6.7", features = ["derive"] }
dirs = "=7.0.0"
flate2 = "=1.1.10"
git2 = "=0.21.0"
glob = "=0.3.4"
reqwest = "=0.13.5"
rrgen = "=0.6.0"
serde = { version = "=1.0.229", features = ["derive"] }
serde_json = "=1.0.154"
serde_yaml = "=0.9.34"
tar = "=0.4.46"
tempfile = "=3.27.0"
tera = "=1.20.1"
tokio = { version = "=1.54.1", features = ["rt-multi-thread", "macros", "fs", "io-util"] }
tracing = "=0.1.44"
tracing-subscriber = { version = "=0.3.23", features = ["env-filter"] }
zip = { version = "=9.1.0", default-features = false, features = ["deflate"] }
