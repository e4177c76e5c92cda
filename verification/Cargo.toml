[package]
name = "sendit"
version = "0.1.0"
edition = "2021"
publish = false

[dependencies]
anyhow = "1"
block2 = "*"
clap = { version = "4", features = ["derive"] }
hex = "0.4"
libc = "0.2"
objc2 = { version = "*", features = ["exception"] }
objc2-foundation = "*"
objc2-virtualization = "*"
serde = { version = "1", features = ["derive"] }
sha2 = "*"
toml = "*"
uuid = { version = "1", features = ["v5"] }
