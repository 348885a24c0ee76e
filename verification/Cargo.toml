[package]
name = "pci_fetch"
version = "0.1.0"
edition = "2021"
publish = false

[dependencies]
hex = "*"
pci-ids = "*"
