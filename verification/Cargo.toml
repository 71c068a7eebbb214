[package]
name = "drone_core"
version = "0.1.0"
edition = "2021"
publish = false

[dependencies]
syn = "0.15"
quote = "0.6"
proc-macro2 = "0.4"
Inflector = "0.11"
futures = "0.1"
drone-config = "*"
