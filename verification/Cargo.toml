[package]
name = "rex"
version = "0.1.0"
edition = "2021"
publish = false

[dependencies]
zstd = "0.13.3"
tar = "0.4.46"
fs_extra = "1.3.0"
tempfile = "3.27.0"
