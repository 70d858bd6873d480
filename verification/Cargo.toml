[package]
name = "replica_reconciler"
version = "0.1.0"
edition = "2021"
publish = false

[dependencies]
bollard = "*"
tokio = { version = "*", features = ["macros", "rt-multi-thread", "time"] }
uuid = { version = "*", features = ["v4"] }
