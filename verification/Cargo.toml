[package]
name = "tightbeam"
version = "0.5.1"
edition = "2021"
publish = false

[dependencies]
tokio = { version = "=1.54.1", features = ["sync", "io-util", "io-std", "net", "time", "macros", "rt"] }
tokio-util = "=0.7.20"
futures = "=0.3.34"
tracing = "=0.1.44"
eyre = "=0.6.14"
thiserror = "=2.0.21"
