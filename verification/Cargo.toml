[package]
name = "outbox"
version = "0.1.0"
edition = "2021"
publish = false

[dependencies]
anyhow = "1"
dirs = "*"
futures = "0.3"
http-body-util = "0.1"
hyper = { version = "1", features = ["http1", "http2", "server"] }
hyper-util = { version = "0.1", features = ["server-auto", "server-graceful", "service", "tokio"] }
listenfd = "1"
opener = "*"
reqwest = { version = "*", default-features = false }
tempfile = "3"
tokio = { version = "1", features = ["fs", "io-util", "macros", "net", "process", "rt-multi-thread", "signal", "sync"] }
tokio-util = "0.7"
uuid = { version = "1", features = ["v4"] }
