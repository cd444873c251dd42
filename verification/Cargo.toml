[package]
name = "flipper_rpc"
version = "0.1.0"
edition = "2021"
publish = false

[dependencies]
protobuf = "3"
chrono = "0.4"
btleplug = "0.11"
tokio = { version = "1", features = ["macros", "rt-multi-thread", "time"] }
futures = "0.3"
uuid = "1"
indicatif = "0.17"
clap = { version = "4", features = ["derive"] }
log = "0.4"
pretty_env_logger = "0.5"
