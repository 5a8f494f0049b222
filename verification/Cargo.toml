[package]
name = "rusty_calendar"
version = "0.1.0"
edition = "2021"
publish = false

[dependencies]
chrono = "=0.4.45"
uuid = { version = "=1.29.0", features = ["v5"] }
argh = "=0.1.19"
serde = { version = "=1.0.229", features = ["derive"] }
toml = "=0.8.23"
ureq = "=3.5.1"
calcard = "=0.3.14"
rusqlite = { version = "=0.41.1", features = ["bundled"] }
tracing = "=0.1.44"
tracing-subscriber = { version = "=0.3.23", features = ["env-filter"] }
tiny-skia = "=0.11.4"
taffy = "=0.9.2"
cosmic-text = "=0.19.0"
resvg = "=0.49.0"
usvg = "=0.49.0"
softbuffer = "=0.4.8"
winit = "=0.30.13"
drm = "=0.14.1"
evdev = "0.13"
