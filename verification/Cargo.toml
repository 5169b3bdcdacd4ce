[package]
name = "dep_eval"
version = "0.1.0"
edition = "2021"
publish = false

[dependencies]
clap = "2"
conllx = "*"
failure = "0.1"
itertools = "*"
stdinout = "*"
