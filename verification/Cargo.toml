[package]
name = "voicevox_tts"
version = "0.1.0"
edition = "2021"
publish = false

[dependencies]
gstreamer = "=0.24.5"
gstreamer-audio = "=0.24.5"
gstreamer-base = "=0.24.5"
once_cell = "=1.21.4"
vvcore = "=0.0.2"

[dev-dependencies]
wavers = "=1.5.1"
