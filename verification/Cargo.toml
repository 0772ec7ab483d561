[package]
name = "alvr_streamer"
version = "0.1.0"
edition = "2021"
publish = false

[dependencies]
log = "=0.4.35"
once_cell = "=1.21.4"
parking_lot = "=0.12.5"
serde = { version = "=1.0.229", features = ["derive"] }
serde_json = "=1.0.154"
flume = "=0.12.0"
mdns-sd = "=0.21.7"
exec = "=0.3.1"
pipewire = "=0.10.1"
libspa-sys = "=0.10.1"
eframe = { version = "=0.37.0", default-features = false, features = ["glow", "default_fonts", "x11"] }
