[package]
name = "textbox"
version = "0.1.0"
edition = "2021"
publish = false

[dependencies]
intervaltree = "0.2"
tui = { version = "0.19", default-features = false }
