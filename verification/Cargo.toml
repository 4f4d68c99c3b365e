[package]
name = "irc"
version = "0.1.0"
edition = "2021"
publish = false

[dependencies]
anyhow = "1"
dotenvy = "0.15"
regex = "1"
thiserror = "2"
