[package]
name = "logos_engine"
version = "0.1.0"
edition = "2021"
publish = false

[dependencies]
kameo = "0.22"
rkyv = "0.8"
thiserror = "2"
tokio = { version = "1", features = ["full"] }
