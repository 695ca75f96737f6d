[package]
name = "pi_smart_clock"
version = "0.1.0"
edition = "2021"
publish = false

[dependencies]
chrono = "0.4"
serde = { version = "1", features = ["derive"] }
serde_json = "1"
ureq = { version = "2", features = ["json"] }
sdl2 = { version = "0.37", features = ["ttf", "mixer"] }
tokio = { version = "1", features = ["rt-multi-thread", "macros", "time"] }
resvg = "*"
usvg = "*"
tiny-skia = "*"
libm = "0.2"
