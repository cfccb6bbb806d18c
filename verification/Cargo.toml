[package]
name = "yonro_text_editor"
version = "0.1.0"
edition = "2021"
publish = false

[dependencies]
crossterm = "*"
tokio = { version = "1", features = ["rt"] }
async-trait = "*"

[dev-dependencies]
tempfile = "*"
