[package]
name = "snake"
version = "0.4.0"
edition = "2021"
publish = false

[dependencies]
rand = "0.8"
clap = "4"
crossterm = "*"
