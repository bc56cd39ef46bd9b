[package]
name = "bookokrat"
version = "0.1.0"
edition = "2021"
publish = false

[dependencies]
anyhow = "1"
chrono = "0.4"
crossterm = "=0.29.0"
epub = "2"
flate2 = "=1.1.10"
flume = "0.11"
image = { version = "0.25", default-features = false }
libc = "0.2"
log = "0.4"
mupdf = { version = "*", default-features = false }
open = "5"
pprof = "*"
ratatui = "=0.30.2"
roxmltree = "=0.20.0"
tempfile = "3"
walkdir = "2"
zip = { version = "0.6", default-features = false, features = ["deflate"] }
