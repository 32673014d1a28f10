[package]
name = "orgtools"
version = "0.1.0"
edition = "2021"
publish = false

[dependencies]
tree-sitter = "=0.20.10"
tree-sitter-org = "=1.3.3"
chrono = "=0.4.45"
clap = "=4.6.7"
anyhow = "=1.0.104"
tracing = "=0.1.44"
tracing-subscriber = "=0.3.23"
