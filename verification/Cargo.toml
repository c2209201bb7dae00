[package]
name = "chord"
version = "0.1.0"
edition = "2021"
publish = false

[dependencies]
tonic = "0.11"
http = "0.2"
prost = "0.12"
tokio = { version = "1", features = ["macros", "rt-multi-thread", "signal", "sync", "time"] }
tokio-util = "0.7"
cached = "*"
clap = { version = "4", features = ["derive"] }
serde = { version = "1", features = ["derive"] }
log = "0.4"
log4rs = "1"
rand = "0.8"
thiserror = "1"
async-trait = "0.1"
futures = "0.3"
