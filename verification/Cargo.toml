[package]
name = "game_of_life"
version = "0.1.0"
edition = "2021"
publish = false

[dependencies]
clap = "3"
crossterm = "*"
rand = "0.8"
retry = "*"
