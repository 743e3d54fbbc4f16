[package]
name = "cppdoc"
version = "0.1.0"
edition = "2021"
publish = false

[dependencies]
pulldown-cmark = "0.9"
emojis = "0.6"
