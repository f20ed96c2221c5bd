[package]
name = "godon_metrics_exporter"
version = "0.1.0"
edition = "2021"
publish = false

[dependencies]
clap = { version = "3", features = ["derive"] }
env_logger = "0.10"
hyper = { version = "0.14", features = ["full"] }
log = "0.4"
reqwest = { version = "0.11", default-features = false, features = ["blocking"] }
tokio = { version = "1", features = ["rt-multi-thread", "macros"] }
