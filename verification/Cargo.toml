[package]
name = "systemcheck"
version = "0.1.0"
edition = "2021"
publish = false

[dependencies]
clap = { version = "*", features = ["derive"] }
humanize-bytes = "*"
libc = "*"
num_cpus = "*"
serde = { version = "*", features = ["derive"] }
serde_json = "*"
