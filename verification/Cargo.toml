[package]
name = "gallery"
version = "0.1.0"
edition = "2021"
publish = false

[dependencies]
anyhow = "*"
argh = "*"
fltk = "*"
image = "*"
infer = "*"
jwalk = "*"
log = "*"
new_mime_guess = "*"
parking_lot = "*"
simplelog = "*"
