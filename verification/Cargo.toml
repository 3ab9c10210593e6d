[package]
name = "post_pipeline"
version = "0.1.0"
edition = "2021"
publish = false

[dependencies]
markdown = "*"
mdast_util_to_markdown = "*"
katex = "*"
tree-sitter-highlight = "*"
tree-sitter-rust = "*"
tree-sitter-html = "*"
serde_yaml = "*"
toml = "*"
