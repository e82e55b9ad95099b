[package]
name = "airs_tts"
version = "0.1.0"
edition = "2021"
publish = false

[dependencies]
thiserror = "=2.0.21"
log = "=0.4.35"
