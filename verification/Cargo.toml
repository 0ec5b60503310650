[package]
name = "bookscrape"
version = "0.1.0"
edition = "2021"
publish = false

[dependencies]
anyhow = "1"
epub-builder = "*"
html5ever = "*"
log = "0.4"
simple_logger = "*"
ureq = "3"
