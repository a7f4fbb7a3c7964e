[package]
name = "linux_rtfm"
version = "0.1.0"
edition = "2021"
publish = false

[dependencies]
heapless = "0.8"
cty = "0.2"
sc = "0.2"
ufmt = "*"
rtfm-core = "*"
rtfm-syntax = "*"
proc-macro2 = "1"
quote = "1"
syn = { version = "1", features = ["full"] }
