[package]
name = "alone"
version = "0.1.0"
edition = "2021"
publish = false

[dependencies]
big_s = "*"
clap = "2"
codespan = "*"
itertools = "*"
