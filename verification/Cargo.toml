[package]
name = "focus_cwd"
version = "0.1.0"
edition = "2021"
publish = false

[dependencies]
byteorder = "1"
dirs = "2.0"
openat = "0.1"
xcb = "0.9"
