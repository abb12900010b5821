[package]
name = "debugbox"
version = "0.1.0"
edition = "2021"
publish = false

[dependencies]
anyhow = "=1.0.104"
iced-x86 = "=1.21.0"
serde = { version = "=1.0.229", features = ["derive"] }
zbus = "=5.19.0"
zi = "=0.3.2"
zi-term = "=0.3.2"
zvariant = "=5.15.0"
