[package]
name = "chess_arena"
version = "0.1.0"
edition = "2021"
publish = false

[dependencies]
chess = "3.2"
rand = "0.8"
ggez = { version = "0.9", default-features = false }
