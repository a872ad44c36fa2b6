[package]
name = "embedded_game_of_life"
version = "0.1.0"
edition = "2021"
publish = false

[dependencies]
embedded-graphics = "0.6"
rand = { version = "0.8", default-features = false, features = ["small_rng"] }
