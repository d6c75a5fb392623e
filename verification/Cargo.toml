[package]
name = "kernel"
version = "0.1.0"
edition = "2021"
publish = false

[dependencies]
acpi = { version = "=5.2.0", default-features = false }
bootloader_api = "=0.11.17"
lazy_static = { version = "=1.5.1", features = ["spin_no_std"] }
noto-sans-mono-bitmap = "=0.3.2"
pc-keyboard = "=0.9.0"
spin = "=0.9.9"
x86_64 = { version = "=0.15.5", default-features = false, features = ["instructions"] }
