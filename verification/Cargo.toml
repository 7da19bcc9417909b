[package]
name = "rust_os"
version = "0.1.0"
edition = "2021"
publish = false

[dependencies]
lazy_static = "=1.5.1"
spin = "=0.9.9"
volatile = "=0.2.7"

[dependencies.bootloader]
version = "=0.9.35"
features = ["map_physical_memory"]

[dependencies.x86_64]
version = "=0.14.13"
default-features = false
features = ["instructions"]
