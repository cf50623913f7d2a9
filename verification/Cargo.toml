[package]
name = "siskin"
version = "0.1.0"
edition = "2021"
publish = false

[dependencies]
anyhow = "1"
bincode = "1.3"
csv = "1"
kd-tree = "*"
lzf = "*"
nalgebra = "*"
num-traits = "0.2"
ordered-float = "*"
typenum = "1"
