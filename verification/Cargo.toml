[package]
name = "strck"
version = "0.1.0"
edition = "2021"
publish = false

[dependencies]
wyhash = "*"
url = "*"
uuid = { version = "*", features = ["v4"] }
blob-uuid = "*"
hdrhistogram = { version = "*", default-features = false }
encoding_rs = "*"
mime = "*"
chrono = "*"
reqwest = { version = "*", default-features = false, features = ["gzip"] }
tokio = { version = "*", features = ["macros", "rt", "time"] }
futures = "*"
serde = { version = "*", features = ["derive"] }
serde_json = "*"
structopt = "*"
env_logger = "*"
log = "*"
codemap = "*"
codemap-diagnostic = "*"
