[package]
name = "asciii_cli"
version = "0.1.0"
edition = "2021"
publish = false

[dependencies]
chrono = "0.4"
clap = "2"
terminal_size = "*"
open = "*"
toml = "*"
failure = "0.1"
git2 = { version = "*", default-features = false }
