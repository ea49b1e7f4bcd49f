[package]
name = "motd"
version = "0.1.0"
edition = "2021"
publish = false

[dependencies]
bytesize = "*"
systemstat = "*"
termion = "*"
thiserror = "*"
toml = { version = "*", features = ["preserve_order"] }
