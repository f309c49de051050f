[package]
name = "rsclean"
version = "0.1.0"
edition = "2021"
publish = false

[dependencies]
clap = "3.2"
human_bytes = "0.4"
walkdir = "2"
