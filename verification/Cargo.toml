[package]
name = "fibo_calc"
version = "0.1.0"
edition = "2021"
publish = false

[dependencies]
num-bigint = "0.4"
num-traits = "0.2"
rayon = "1"
tokio = { version = "1", features = ["sync", "rt-multi-thread", "macros"] }
ratatui = "*"
crossterm = "*"
kalkulator = "*"
