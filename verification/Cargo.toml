[package]
name = "prettyprint"
version = "0.1.0"
edition = "2021"
publish = false

[dependencies]
anyhow = "1"
serde_json = "1"
termcolor = "1"
