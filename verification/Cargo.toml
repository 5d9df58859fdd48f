[package]
name = "trace4rs"
version = "0.1.0"
edition = "2021"
publish = false

[dependencies]
camino = "=1.2.6"
path-absolutize = "*"
regex = "*"
time = { version = "=0.3.55", features = ["formatting", "local-offset", "parsing"] }
