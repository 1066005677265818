[package]
name = "ronly"
version = "0.1.0"
edition = "2021"
publish = false

[dependencies]
libc = "0.2"
nix = { version = "0.29", features = ["mount", "process", "sched"] }
seccompiler = "*"
