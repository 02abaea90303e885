[package]
name = "tcvm"
version = "0.1.0"
edition = "2021"
publish = false

[dependencies]
hashbrown = "*"
proc-macro2 = "1"
quote = "1"
syn = { version = "2", features = ["full", "visit-mut"] }
synstructure = "0.13"
