[package]
name = "feosynth"
version = "0.1.0"
edition = "2021"
publish = false

[dependencies]
anyhow = "=1.0.104"
cpal = "=0.15.3"
crossbeam = "=0.8.5"
midir = "=0.9.1"
rand = "=0.8.8"
signal-hook = "=0.3.18"

[dev-dependencies]
midistream = "=0.1.0"
