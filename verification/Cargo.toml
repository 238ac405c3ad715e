[package]
name = "breakout"
version = "0.1.0"
edition = "2021"
publish = false

[dependencies]
nalgebra = "=0.18.1"
ncollide2d = "=0.19.2"
nphysics2d = "=0.11.1"
retain_mut = "=0.1.9"
