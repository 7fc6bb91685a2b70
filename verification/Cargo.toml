[package]
name = "media_keywords"
version = "0.1.0"
edition = "2021"
publish = false

[dependencies]
subslice = "*"
widestring = "*"
