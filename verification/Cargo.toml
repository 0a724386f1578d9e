[package]
name = "arimaa"
version = "0.1.0"
edition = "2021"
publish = false

[dependencies]
bitintr = "0.3"
failure = "0.1"
mcts = "*"
num-derive = "0.2"
num-traits = "0.2"
rand = { version = "0.8", features = ["small_rng"] }
