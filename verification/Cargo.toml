[package]
name = "kanata_keymap"
version = "0.1.0"
edition = "2021"
publish = false

[dependencies]
kanata-keyberon = "*"
kanata-parser = "*"
serde = { version = "1", features = ["derive"] }
serde_json = "1"
anyhow = "1"
tree-sitter = "*"
