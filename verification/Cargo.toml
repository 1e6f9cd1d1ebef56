[package]
name = "janitors"
version = "0.1.0"
edition = "2021"
publish = false

[dependencies]
regex = "*"
fs_extra = "*"
notify = "*"
crossbeam = "*"
toml = "*"
serde = { version = "*", features = ["derive"] }
clap = { version = "*", features = ["derive"] }
stderrlog = "*"
log = "*"
resolve-path = "*"
