[package]
name = "synacor_vm"
version = "0.1.0"
edition = "2021"
publish = false

[dependencies]
eyre = "*"
itertools = "*"
serde = { version = "*", features = ["derive"] }
serde_json = "*"
stacker = "*"
thiserror = "*"
