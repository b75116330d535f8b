[package]
name = "cliutils"
version = "0.1.0"
edition = "2021"
publish = false

[dependencies]
chrono = "0.4"
clap = "2.33"
colorize = "0.1"
csv = "1"
lazy_static = "1"
num-traits = "0.2"
once_cell = "1"
regex = "1"
tabular = "0.2"
users = "0.11"
walkdir = "2"
