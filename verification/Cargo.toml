[package]
name = "libtest"
version = "0.1.0"
edition = "2021"
publish = false

[dependencies]
getopts = "0.2"
termcolor = "1"
chrono = { version = "0.4", default-features = false, features = ["clock", "std"] }
libc = "0.2"
