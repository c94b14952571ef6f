[package]
name = "rwr_gfl_armor_parser"
version = "0.1.0"
edition = "2021"
publish = false

[dependencies]
quick-xml = "*"
encoding_rs = "*"
csv = "*"
chrono = "*"
anyhow = "*"
structopt = "*"
