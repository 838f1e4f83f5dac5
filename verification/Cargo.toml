[package]
name = "traceroute"
version = "0.1.0"
edition = "2021"
publish = false

[dependencies]
async-std = "1"
log = "0.4"
petgraph = "*"
pnet = "0.35"
rand = "0.9"
stderrlog = "*"
structopt = "0.3"
url = "2"
