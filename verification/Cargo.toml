[package]
name = "workload_gateway"
version = "0.1.0"
edition = "2021"
publish = false

[dependencies]
actix-web = { version = "4", default-features = false, features = ["macros"] }
bollard = "0.16"
reqwest = { version = "0.11", default-features = false }
rusqlite = "0.29"
serde = { version = "1", features = ["derive"] }
serde_json = "1"
