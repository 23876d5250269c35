[package]
name = "game_of_life"
version = "0.1.0"
edition = "2021"
publish = false

[dependencies]
array2d = "=0.3.2"
rand = "=0.10.3"
rand_distr = "=0.6.0"
iced = { version = "*", features = ["tokio"] }
