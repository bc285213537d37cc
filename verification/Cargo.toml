[package]
name = "modulardsp"
version = "0.1.0"
edition = "2021"
publish = false

[dependencies]
audio_thread_priority = { version = "=0.38.0", default-features = false }
cgmath = "=0.18.0"
crossbeam-channel = "=0.5.17"
num-traits = "=0.2.19"
portaudio = "*"
portmidi = "*"
serde = { version = "=1.0.229", features = ["derive"] }
serde_json = "=1.0.154"
uuid = { version = "=1.29.0", features = ["v4"] }
ws = "=0.9.2"
