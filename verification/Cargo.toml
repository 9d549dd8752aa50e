[package]
name = "street_ui"
version = "0.1.0"
edition = "2021"
publish = false

[dependencies]
anyhow = "=1.0.104"
ordered-float = "=5.5.0"
piston = "=1.0.0"
