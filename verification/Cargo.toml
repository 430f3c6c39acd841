[package]
name = "scoutty"
version = "0.1.0"
edition = "2021"
publish = false

[dependencies]
vte = "*"
clap = { version = "4", features = ["derive"] }
clap_complete = "4"
nix = { version = "*", features = ["poll", "signal", "term", "fs"] }
serde = { version = "1", features = ["derive"] }
serde_json = "1"
thiserror = "*"
