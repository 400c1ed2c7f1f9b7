[package]
name = "fastpasta"
version = "0.1.0"
edition = "2021"
publish = false

[dependencies]
itertools = "*"
log = "*"
stderrlog = "*"
structopt = "*"
crossbeam-channel = "*"
flume = "*"
serde = "*"
serde_derive = "*"
serde_json = "*"
toml = "*"

[dev-dependencies]
regex = "*"
