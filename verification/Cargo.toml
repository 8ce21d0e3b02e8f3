[package]
name = "audio_reactive"
version = "0.1.0"
edition = "2021"
publish = false

[dependencies]
cpal = "0.15"
dirs = "5"
spectrum-analyzer = "1"
