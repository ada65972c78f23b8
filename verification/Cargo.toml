[package]
name = "fastboot"
version = "1.3.0"
edition = "2021"
publish = false

[dependencies]
retour = "0.4.0-alpha.4"
