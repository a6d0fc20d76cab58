[package]
name = "steam-shortcut-sync"
version = "0.1.0"
edition = "2021"
publish = false

[dependencies]
ctrlc = "3"
notify = "4"
walkdir = "2"

[dev-dependencies]
regex = "1"
