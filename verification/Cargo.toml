[package]
name = "hyperfusion_aod"
version = "0.1.0"
edition = "2021"
publish = false

[dependencies]
libc = "0.2"
obfstr = "0.4"
ndk-sys = { version = "0.6", features = ["test"] }
