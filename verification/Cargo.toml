[package]
name = "sqlx_pool"
version = "0.8.0"
edition = "2021"
publish = false

[dependencies]
crossbeam-queue = "0.3.2"
event-listener = "5.2.0"
futures-util = { version = "0.3.19", default-features = false, features = ["alloc", "std"] }
sha2 = { version = "0.10.0", default-features = false }
tokio = { version = "1", default-features = false, features = ["rt", "time"] }
tracing = "0.1.37"
