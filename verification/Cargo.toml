[package]
name = "rt_lib"
version = "0.1.0"
edition = "2021"
publish = false

[dependencies]
anyhow = "*"
argh = "*"
dirs = "*"
glob = "*"
which = "*"

[dev-dependencies]
semver = "*"
