[package]
name = "bartender"
version = "0.1.0"
edition = "2021"
publish = false

[dependencies]
getopts = "0.2"
libc = "0.2"
mustache = "0.9"
pledge = "0.3"
time = "0.1"
toml = "0.5"
