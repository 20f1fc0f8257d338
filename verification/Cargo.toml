[package]
name = "ghnf"
version = "0.1.0"
edition = "2021"
publish = false

[dependencies]
regex = "*"
reqwest = { version = "*", default-features = false }
tokio = { version = "*", features = ["rt-multi-thread", "macros", "time"] }
futures = "*"
clap = "*"
dirs = "*"
open = "*"
serde = { version = "*", features = ["derive"] }
serde_json = "*"
