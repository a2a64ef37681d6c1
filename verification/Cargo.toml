[package]
name = "tarball"
version = "0.1.0"
edition = "2021"
publish = false

[dependencies]
bzip2 = "*"
filetime = "*"
flate2 = "*"
getopt = "*"
ignore = "*"
lz4 = "*"
tar = "*"
xz2 = "*"
zstd = "*"
