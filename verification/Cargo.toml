[package]
name = "zexe"
version = "0.1.0"
edition = "2021"
publish = false

[dependencies]
anyhow = "=1.0.104"
byteorder = "=1.5.0"
clap = { version = "=4.6.7", features = ["derive"] }
cpal = "=0.15.3"
flate2 = "=1.1.10"
glow = "=0.13.1"
glutin = "=0.32.3"
glutin-winit = "=0.5.0"
ringbuf = "=0.3.3"
rustzx-core = { version = "=0.16.0", features = ["sound", "ay", "embedded-roms", "precise-border"] }
serde = { version = "=1.0.229", features = ["derive"] }
serde_json = "=1.0.154"
winit = "=0.30.13"
