[package]
name = "igor_install"
version = "0.1.0"
edition = "2021"
publish = false

[dependencies]
anyhow = "*"
clap = "*"
dirs = "*"
git2 = { version = "*", default-features = false }
