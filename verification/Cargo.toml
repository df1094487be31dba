[package]
name = "toyos"
version = "0.1.0"
edition = "2021"
publish = false

[dependencies]
elf = "0.7"
uefi = "0.26"
uefi-services = { version = "0.23", default-features = false }
