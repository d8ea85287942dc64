[package]
name = "ovid"
version = "0.1.0"
edition = "2021"
publish = false

[dependencies]
anyhow = "*"
clap = { version = "*", features = ["derive"] }
clap_complete = "*"
flate2 = "*"
image = "*"
lopdf = "*"
mimalloc = "*"
mupdf = "*"
png = "*"
rayon = "*"
turbojpeg = "*"
