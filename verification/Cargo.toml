[package]
name = "steam_broker"
version = "0.1.0"
edition = "2021"
publish = false

[dependencies]
fastrand = "=2.5.0"
png = "=0.18.1"
steamworks = { version = "=0.13.1", features = ["raw-bindings"] }
thiserror = "=2.0.21"
