[package]
name = "typemap"
version = "0.1.0"
edition = "2021"
publish = false

[dependencies]
anyhow = "1"
clap = { version = "4", features = ["derive"] }
graphviz-rust = "*"
syn = { version = "2", features = ["full"] }
