[package]
name = "aish"
version = "0.1.0"
edition = "2021"
publish = false

[dependencies]
home = "*"
log = "*"
nix = { version = "0.29", features = ["fs", "process"] }
reqwest = { version = "*", features = ["json"] }
rustyline = "*"
rustyline-derive = "*"
serde = { version = "*", features = ["derive"] }
simplelog = "*"
thiserror = "*"
tokio = { version = "*", features = ["rt-multi-thread"] }
