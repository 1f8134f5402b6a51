[package]
name = "linear_regression"
version = "0.1.0"
edition = "2021"
publish = false

[dependencies]
bincode = "1"
clap = "2"
colored = "2"
console = "0.15"
csv = "1"
gnuplot = "*"
indicatif = "0.15"
serde = "1"
serde_derive = "1"
