[package]
name = "fractal_curves"
version = "0.1.0"
edition = "2021"
publish = false

[dependencies]
chfft = "*"
num-complex = "*"
clap = "*"
