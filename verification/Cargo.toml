[package]
name = "friday"
version = "0.1.0"
edition = "2021"
publish = false

[dependencies]
rand = "0.6"
clap = "2"
rustyline = "9"
