[package]
name = "dioxus_markdown"
version = "0.1.0"
edition = "2021"
publish = false

[dependencies]
dioxus = "=0.4.3"
