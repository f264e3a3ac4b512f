[package]
name = "supgit"
version = "0.1.0"
edition = "2021"
publish = false

[dependencies]
anyhow = "1"
clap = { version = "4", features = ["derive"] }
dialoguer = { version = "*", features = ["fuzzy-select"] }
dirs = "*"
log = "0.4"
strsim = "*"
