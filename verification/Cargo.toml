[package]
name = "color_cycle"
version = "0.1.0"
edition = "2021"
publish = false

[dependencies]
clap = { version = "4", features = ["derive"] }
ctrlc = "3"
libc = "0.2"
serde = { version = "1", features = ["derive"] }
serde_json = "1"
term_size = "0.3"
