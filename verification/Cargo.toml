[package]
name = "hlwnpa"
version = "0.1.1"
edition = "2021"
publish = false

[dependencies]
uuid = { version = "0.5", features = ["v4"] }
clap = "2"
