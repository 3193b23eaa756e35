[package]
name = "game_of_life"
version = "0.1.0"
edition = "2021"

[dependencies]
anyhow = "1"
clearscreen = "*"
crossterm = "0.25"
tui = "0.19"
