[package]
name = "anode"
version = "0.1.0"
edition = "2021"
publish = false

[dependencies]
tree-sitter = "*"
tree-sitter-highlight = "*"

[dev-dependencies]
tree-sitter-json = "*"
