[package]
name = "tetris_core"
version = "0.1.0"
edition = "2021"
publish = false

[dependencies]
itertools = "0.12"
rand_chacha = "0.3"
rand_core = "0.6"
