[package]
name = "shared_serve"
version = "0.1.0"
edition = "2021"
publish = false

[dependencies]
clap = { version = "4", features = ["derive"] }
ctrlc = "3"
nix = { version = "0.29", features = ["mman", "fs"] }
threadpool = "1"
