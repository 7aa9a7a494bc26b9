[package]
name = "misaki"
version = "0.1.0"
edition = "2021"
publish = false

[dependencies]
discord = { version = "=0.8.1", default-features = false }
math-text-transform = "=0.1.1"
rand = "=0.8.8"
rusqlite = "=0.41.1"
curl = { version = "0.4", default-features = false }
glob = "=0.3.4"
sharedlib = "=7.0.0"
eval = "=0.4.3"
