[package]
name = "sigma_hypergraph"
version = "0.1.0"
edition = "2021"
publish = false

[dependencies]
num-bigint = "0.4"
num-traits = "0.2"
num = "0.4"
serde_json = "1"
clap = "2"
log = "0.4"
simple_logger = "1"
