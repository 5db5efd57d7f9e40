[package]
name = "fieldgate"
version = "0.1.0"
edition = "2021"
publish = false

[dependencies]
bus = "*"
chrono = "*"
clap = "2"
crossbeam-utils = "*"
isahc = "*"
log = "*"
modbus = "*"
simplelog = "*"
toml = "*"
