[package]
name = "modplay"
version = "0.1.0"
edition = "2021"
publish = false

[dependencies]
byteorder = "1"
anyhow = "1"
clap = { version = "4", features = ["derive"] }
ctrlc = "3"
sdl2 = "*"
