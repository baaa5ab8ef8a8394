[package]
name = "layer_sync"
version = "0.1.0"
edition = "2021"
publish = false

[dependencies]
anyhow = "*"
clap = { version = "*", features = ["derive"] }
crossbeam = "*"
glob = "*"
log = "*"
simplelog = "*"
swayipc = "*"
