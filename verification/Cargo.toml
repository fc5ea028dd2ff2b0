[package]
name = "omogenexec"
version = "0.1.0"
edition = "2021"
publish = false

[dependencies]
libc = "*"
cgroups-rs = "*"
clap = { version = "*", features = ["derive"] }
proc-mounts = "*"
