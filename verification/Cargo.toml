[package]
name = "replicon_receive"
version = "0.1.0"
edition = "2021"
publish = false

[dependencies]
bevy = { version = "0.18", default-features = false, features = ["std", "bevy_state"] }
bytes = "1"
log = "0.4"
postcard = "1"
serde = { version = "1", features = ["derive"] }
