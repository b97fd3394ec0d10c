[package]
name = "repl_block"
version = "0.1.0"
edition = "2021"
publish = false

[dependencies]
camino = "1"
crossterm = "*"
derive_more = { version = "*", features = ["from"] }
displaydoc = "0.2"
itertools = "*"
log = "0.4"
regex = "1"
serde = { version = "1", features = ["derive"] }
serde_json = "1"
unicode-segmentation = "1"
