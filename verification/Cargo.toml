[package]
name = "vortex_bloom"
version = "0.1.0"
edition = "2021"
publish = false

[dependencies]
twox-hash = "=2.1.5"
vortex-array = "=0.83.0"
vortex-buffer = "=0.83.0"
vortex-error = "=0.83.0"
vortex-mask = "=0.83.0"
vortex-session = "=0.83.0"
