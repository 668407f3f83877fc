[package]
name = "azure_init"
version = "0.1.0"
edition = "2021"
publish = false

[dependencies]
anyhow = "*"
exitcode = "*"
nix = { version = "*", features = ["user", "mount"] }
tokio = { version = "*", features = ["rt-multi-thread", "macros", "net", "io-util", "time"] }
