[package]
name = "dotman"
version = "0.1.0"
edition = "2021"
publish = false

[dependencies]
clap = { version = "*", features = ["derive", "env"] }
clap_complete = "*"
colored = "*"
dialoguer = "*"
serde = { version = "*", features = ["derive"] }
serde_yaml = "*"
simple-expand-tilde = "*"
thiserror = "*"
