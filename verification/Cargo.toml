[package]
name = "kanter"
version = "0.1.0"
edition = "2021"
publish = false

[dependencies]
bevy = { version = "=0.7.0", default-features = false }
num_enum = "=0.5.11"
anyhow = "=1.0.104"
rand = "=0.8.8"
native-dialog = "=0.6.4"
image = "=0.23.14"
