[package]
name = "blackmarlin"
version = "0.1.0"
edition = "2021"
publish = false

[dependencies]
cozy-chess = "0.3"
chess = "3.2"
arrayvec = "0.7"
rand = "0.8"
clap = { version = "4", features = ["derive"] }
threadpool = "1.8"
