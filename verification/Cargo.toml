[package]
name = "bevy_spacetimedb"
version = "0.1.0"
edition = "2021"
publish = false

[dependencies]
bevy = { version = "0.16", default-features = false }
heck = "0.5"
proc-macro2 = "1"
quote = "1"
spacetimedb-sdk = "1"
syn = "2"
