[package]
name = "syntax_tree_view"
version = "0.1.0"
edition = "2021"
publish = false

[dependencies]
tree-sitter = "0.23"

[dev-dependencies]
tree-sitter-json = "0.23"
tree-sitter-python = "0.23"
tree-sitter-rust = "0.23"
