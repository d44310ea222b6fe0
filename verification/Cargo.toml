[package]
name = "pageserver"
version = "0.1.0"
edition = "2021"
publish = false

[dependencies]
anyhow = "1"
byteorder = "1"
bytes = "1"
chrono = { version = "0.4", default-features = false, features = ["clock"] }
close_fds = "0.3"
fail = "0.5"
nix = { version = "0.26", default-features = false, features = ["poll", "fs"] }
once_cell = "1"
prometheus = { version = "0.13", default-features = false }
reqwest = { version = "0.11", default-features = false }
reqwest-middleware = "0.2"
reqwest-retry = "0.2"
reqwest-tracing = { version = "0.4", default-features = false }
scopeguard = "1"
thiserror = "1"
tokio = { version = "1", features = ["rt", "rt-multi-thread", "sync", "time", "macros"] }
tracing = "0.1"
tracing-error = "0.2"
tracing-subscriber = { version = "0.3", features = ["env-filter", "json"] }
url = "2"
