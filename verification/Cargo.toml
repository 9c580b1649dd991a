[package]
name = "molyuu_updater"
version = "0.1.0"
edition = "2021"
publish = false

[dependencies]
alpm = "*"
clap = "*"
crossbeam-utils = "*"
libc = "*"
r2d2 = "*"
r2d2-alpm = "*"
