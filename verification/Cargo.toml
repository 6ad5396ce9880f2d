[package]
name = "proc_dash"
version = "0.1.0"
edition = "2021"
publish = false

[dependencies]
crossterm = "0.28"
ratatui = "0.29"
nix = { version = "0.29", features = ["signal", "user", "process"] }
libc = "0.2"
