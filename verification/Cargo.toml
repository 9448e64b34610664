[package]
name = "bloom"
version = "0.1.0"
edition = "2021"
publish = false

[dependencies]
farmhash = "1"
hyper = { version = "0.14", features = ["full"] }
tokio = { version = "1", features = ["full"] }
futures = "0.3"
log = "0.4"
clap = "4"
toml = "0.8"
serde = { version = "1", features = ["derive"] }
lazy_static = "1"
r2d2 = "0.8"
redis = { version = "0.23", features = ["r2d2"] }
