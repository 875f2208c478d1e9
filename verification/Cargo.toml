[package]
name = "eddy"
version = "0.1.0"
edition = "2021"
publish = false

[dependencies]
slab = "0.4"
libc = "0.2"
ratatui = "0.29"
crossterm = "0.28"
tungstenite = "0.24"
syn = { version = "2", features = ["full"] }
quote = "1"
proc-macro2 = "1"
pin-project-lite = "0.2"
