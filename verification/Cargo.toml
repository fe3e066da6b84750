[package]
name = "exeviewer"
version = "0.1.0"
edition = "2021"
publish = false

[dependencies]
sha2 = "*"
iced-x86 = "*"
ratatui = "*"
clap = { version = "*", features = ["derive"] }
strum = { version = "*", features = ["derive"] }
humantime = "*"
log = "*"
simple-logging = "*"
