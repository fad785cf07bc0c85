[package]
name = "worldsync"
version = "0.1.0"
edition = "2021"
publish = false

[dependencies]
seahash = "4"
rust-argon2 = "*"
rand = "0.8"
uuid = { version = "1", features = ["v4"] }
ppp = "2"
semver = "1"
walkdir = "2"
sled = "0.34"
serde = { version = "1", features = ["derive"] }
bincode = "1"
