[package]
name = "anyrun_broker"
version = "0.1.0"
edition = "2021"
publish = false

[dependencies]
url = "2"
serde_json = "1"
evalexpr = "*"
chrono = { version = "0.4", default-features = false, features = ["clock"] }
chrono-english = "0.2"
tokio = { version = "1", features = ["net", "rt-multi-thread", "macros", "io-util", "sync", "time"] }
futures = "0.3"
dirs = "*"
arboard = { version = "*", default-features = false }
