[package]
name = "tickbus"
version = "0.1.0"
edition = "2021"
publish = false

[dependencies]
tokio = { version = "1", features = ["rt-multi-thread", "time", "macros", "sync"] }
async-trait = "0.1"
