[package]
name = "mud_server"
version = "0.1.0"
edition = "2021"
publish = false

[dependencies]
bytes = "1"
env_logger = { version = "0.11", default-features = false }
mio = { version = "1", features = ["os-poll", "net"] }
rand = "0.4"
rusqlite = { version = "0.31", features = ["bundled"] }
time = "0.1"
