[package]
name = "wit_bindings"
version = "0.1.0"
edition = "2021"
publish = false

[dependencies]
anyhow = "1"
backtrace = "0.3"
heck = "0.3"
ignore = "0.4"
proc-macro2 = "1"
quote = "1"
wasmparser = "*"
