[package]
name = "strace-analyzer"
version = "0.5.2"
edition = "2021"
publish = false

[dependencies]
anyhow = "1"
bytesize = "1"
clap = { version = "4", features = ["cargo"] }
is-terminal = "0.4"
prettytable-rs = { version = "0.10", default-features = false }
regex = "1"
