[package]
name = "nemotron"
version = "0.1.0"
edition = "2021"
publish = false

[dependencies]
ndarray = "*"
rustfft = "*"
hound = "*"
ort = "=2.0.0-rc.13"
once_cell = "*"
anyhow = "*"
zip = "*"
memmap2 = "*"
crossbeam-channel = "*"
chrono = "*"
log = "*"
android_logger = "*"
jni = "*"
cpal = "*"
