[package]
name = "karplus_string"
version = "0.1.0"
edition = "2021"
publish = false

[dependencies]
audio_thread_priority = "=0.38.0"
crossbeam-channel = "=0.5.17"
gtk = "0.9"
portaudio = "=0.7.1"
rand = "=0.7.3"
