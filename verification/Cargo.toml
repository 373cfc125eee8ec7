[package]
name = "audiopipe"
version = "0.1.0"
edition = "2021"
publish = false

[dependencies]
anyhow = "1"
dasp_interpolate = { version = "=0.11.0", features = ["sinc"] }
dasp_ring_buffer = "=0.11.0"
hound = "=3.5.1"
nnnoiseless = "=0.5.2"
ogg-opus = "*"
rand = "=0.8.8"
rand_distr = "=0.4.3"
rustfft = "=6.4.1"
symphonia = { version = "=0.5.5", features = ["isomp4", "aac"] }
tempfile = "3"
