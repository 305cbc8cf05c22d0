[package]
name = "schedules_runner"
version = "0.1.0"
edition = "2021"
publish = false

[dependencies]
config = "=0.15.27"
getopts = "=0.2.24"
reqwest = { version = "=0.13.5", default-features = false }
tokio = { version = "=1.53.2", features = ["macros", "rt-multi-thread", "time", "fs", "process", "io-util"] }

[dev-dependencies]
serde_json = "=1.0.151"
