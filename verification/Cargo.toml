[package]
name = "notcat"
version = "0.1.0"
edition = "2021"
publish = false

[dependencies]
tokio = { version = "1", features = ["sync", "rt-multi-thread", "macros"] }
nix = { version = "0.27", features = ["socket", "fs", "event"] }
thiserror = "1"
