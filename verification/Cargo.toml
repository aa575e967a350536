[package]
name = "replited"
version = "0.1.0"
edition = "2021"
publish = false

[dependencies]
lz4 = "1"
uuid = { version = "1", features = ["v7"] }
clap = { version = "4", features = ["derive"] }
serde = { version = "1", features = ["derive"] }
toml = "*"
tokio = { version = "1", features = ["rt-multi-thread", "macros", "sync", "time"] }
rusqlite = { version = "*", features = ["bundled"] }
opendal = { version = "*", default-features = false, features = ["services-fs", "services-s3", "services-gcs", "services-azblob", "services-ftp", "http-transport-reqwest"] }
tempfile = "3"
anyhow = "1"
async-trait = "*"
