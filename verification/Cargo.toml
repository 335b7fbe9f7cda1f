[package]
name = "cargo_measuretests"
version = "0.1.0"
edition = "2021"
publish = false

[dependencies]
cargo = "0.37"
clap = "2"
failure = "0.1"
