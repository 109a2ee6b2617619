[package]
name = "chain_apps"
version = "0.1.0"
edition = "2021"
publish = false

[dependencies]
parity-scale-codec = "3"
sp-io = "*"
structopt = "0.3"
