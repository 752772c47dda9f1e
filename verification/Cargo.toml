[package]
name = "import_examples"
version = "0.1.0"
edition = "2021"
publish = false

[dependencies]
detect-lang = "*"
glob = "0.3"
slugify = "*"
