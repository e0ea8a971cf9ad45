[package]
name = "wi_core"
version = "0.1.0"
edition = "2021"
publish = false

[dependencies]
hashbrown = "*"
indexmap = "*"
smallvec = "*"
petgraph = "*"
keyboard-types = "*"
