[package]
name = "elfdb"
version = "0.1.0"
edition = "2021"
publish = false

[dependencies]
failure = { version = "=0.1.8", default-features = false, features = ["std"] }
hashbrown = "0.9"
termion = "1.5"
tui = { version = "=0.19.0", default-features = false, features = ["termion"] }
