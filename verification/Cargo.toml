[package]
name = "strauss"
version = "0.1.0"
edition = "2021"
publish = false

[dependencies]
aho-corasick = "1"
regex = "1"
fancy-regex = "*"
tree-sitter = "*"
tree-sitter-php = "*"
dashmap = "*"
serde = { version = "1", features = ["derive"] }
serde_json = "1"
walkdir = "2"
clap = { version = "4", features = ["derive"] }
anyhow = "1"
log = "0.4"
env_logger = "*"
rayon = "1"
