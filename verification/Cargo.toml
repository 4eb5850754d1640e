[package]
name = "audio"
version = "0.1.0"
edition = "2021"
publish = false

[dependencies]
anyhow = "1"
glam = "*"
dasp_ring_buffer = "*"
tinyaudio = "*"
