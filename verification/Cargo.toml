[package]
name = "micron"
version = "1.0.0"
edition = "2021"
publish = false

[dependencies]
clap = "2.33"
codespan-reporting = "0.11"
