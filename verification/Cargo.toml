[package]
name = "reliable_message_queue"
version = "0.1.0"
edition = "2021"
publish = false

[dependencies]
async-trait = "0.1"
failure = "0.1"
log = "0.4"
tokio = { version = "1", features = ["sync", "time"] }
