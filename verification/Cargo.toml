[package]
name = "node_db"
version = "0.1.0"
edition = "2021"
publish = false

[dependencies]
alloy-primitives = "=1.7.3"
alloy-sol-types = "=1.7.3"
async-trait = "=0.1.92"
dotenv = "=0.15.0"
eyre = "=0.6.14"
parking_lot = "=0.12.5"
revm = { version = "=24.0.1", default-features = false, features = ["std", "asyncdb"] }
tokio = { version = "=1.54.1", features = ["rt-multi-thread"] }
