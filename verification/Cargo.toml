[package]
name = "lepr"
version = "0.1.0"
edition = "2021"
publish = false

[dependencies]
ansi_term = "0.12"
hex = "0.4"
rustyline = "9"
