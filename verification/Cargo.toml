[package]
name = "degov"
version = "0.1.0"
edition = "2021"
publish = false

[dependencies]
kdl = "=6.7.1"
regex = "=1.13.1"
petgraph = "=0.6.5"
indexmap = "=2.14.2"
uuid = { version = "=1.29.0", features = ["v4"] }
chrono = "=0.4.45"
serde = { version = "=1.0.229", features = ["derive"] }
serde_json = "=1.0.154"
serde_yaml = "=0.9.34"
miette = "=7.6.0"
ropey = "=1.6.1"
thiserror = "=1.0.69"
prost-build = "*"
quote = "1"
syn = "2"
proc-macro2 = "1"
