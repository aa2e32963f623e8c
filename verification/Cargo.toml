[package]
name = "finn_os"
version = "0.1.0"
edition = "2021"
publish = false

[dependencies]
crossbeam-queue = "=0.3.14"

[dependencies.x86_64]
version = "=0.15.5"
default-features = false
features = ["instructions"]
