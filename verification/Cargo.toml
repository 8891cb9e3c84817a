[package]
name = "parla"
version = "0.1.0"
edition = "2021"
publish = false

[dependencies]
serde = { version = "1", features = ["derive"] }
serde_json = "1"
rusqlite = { version = "0.32", features = ["bundled"] }
ureq = { version = "2", features = ["json"] }
tokio = { version = "1", features = ["sync", "rt", "macros"] }
hound = "3.5"
rubato = "0.15"
ringbuf = "0.4"
ndarray = "0.16"
cpal = "0.15"
ort = "2.0.0-rc.10"
whisper-rs = "0.14"
espeak-rs = "0.1"
