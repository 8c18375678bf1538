[package]
name = "modbus_rtu_core"
version = "0.1.0"
edition = "2021"
publish = false

[dependencies]
tokio = { version = "*", features = ["rt-multi-thread", "macros"] }
tokio-modbus = { version = "*", features = ["rtu-server"] }
tokio-serial = { version = "*", default-features = false }
