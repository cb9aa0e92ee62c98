[package]
name = "cargo_whereis"
version = "0.1.0"
edition = "2021"
publish = false

[dependencies]
url = "*"
pathdiff = "*"
cargo_metadata = "*"
structopt = "*"
color-eyre = "*"
thiserror = "*"
