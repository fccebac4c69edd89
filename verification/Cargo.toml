[package]
name = "game_of_life_rs"
version = "0.1.0"
edition = "2021"
publish = false

[dependencies]
rand = "0.8"
rand_chacha = "0.3"
rayon = "1"
crossterm = "0.25"
structopt = "0.3"
