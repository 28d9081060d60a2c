[package]
name = "monkeycc"
version = "0.1.0"
edition = "2021"

[dependencies]
ahash = "0.8"
colored = "*"
nu-ansi-term = "0.50"
reedline = "0.43"
