[package]
name = "quux"
version = "0.1.0"
edition = "2021"
publish = false

[dependencies]
http = "0.2"
url = "2"
hyper = { version = "0.14", features = ["server", "http1", "tcp"] }
tokio = { version = "1", features = ["sync", "rt", "macros"] }
syn = { version = "2", features = ["full"] }
quote = "1"
proc-macro2 = "1"
