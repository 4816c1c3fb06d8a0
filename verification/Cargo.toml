[package]
name = "mandelbrot"
version = "0.1.0"
edition = "2021"
publish = false

[dependencies]
rayon = "=1.12.0"
indicatif = { version = "=0.18.6", features = ["rayon"] }
image = "=0.25.10"
serde = { version = "=1.0.229", features = ["derive"] }
serde_json = "=1.0.151"
structopt = "=0.3.26"
termion = "=1.5.6"
tui = { version = "=0.19.0", default-features = false, features = ["termion"] }
