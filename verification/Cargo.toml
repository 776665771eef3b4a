[package]
name = "csvre"
version = "0.1.0"
edition = "2021"
publish = false

[dependencies]
csv = "1"
regex = "1"
docopt = "1"
serde = "1"
serde_derive = "1"
