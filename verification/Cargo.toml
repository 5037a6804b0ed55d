[package]
name = "dragonet"
version = "0.1.0"
edition = "2021"
publish = false

[dependencies]
futures = "0.3"
mio = { version = "0.8", features = ["os-poll", "net"] }
proc-macro2 = "1"
quote = "1"
syn = { version = "2", features = ["full"] }
