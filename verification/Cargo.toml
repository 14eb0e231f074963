[package]
name = "include_packed"
version = "0.1.0"
edition = "2021"
publish = false

[dependencies]
zstd = "=0.14.0"
object = { version = "=0.40.0", features = ["write"] }
proc-macro2 = "=1.0.107"
quote = "=1.0.47"
syn = "=3.0.6"
proc-macro-crate = "=3.5.0"
