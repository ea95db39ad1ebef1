[package]
name = "data_lifecycle"
version = "0.1.0"
edition = "2021"
publish = false

[dependencies]
async-channel = "*"
async-trait = "0.1"
futures = "0.3"
merkle-search-tree = "*"
thiserror = "1"
tokio = { version = "1", features = ["macros", "rt", "sync", "time"] }
uuid = { version = "1", features = ["v4"] }
