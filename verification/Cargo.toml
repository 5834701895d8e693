[package]
name = "am_demod"
version = "0.1.0"
edition = "2021"
publish = false

[dependencies]
hound = "=3.5.1"
rustfft = "=6.4.1"
num-complex = "=0.4.6"
plotters = { version = "=0.3.7", default-features = false, features = ["bitmap_backend", "bitmap_encoder", "line_series"] }
