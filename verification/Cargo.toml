[package]
name = "pgwire"
version = "0.1.0"
edition = "2021"
publish = false

[dependencies]
async-trait = "0.1"
base64 = "0.21"
bytes = "1"
futures = "0.3"
rand = "0.8"
ring = "0.17"
stringprep = "0.1"
