[package]
name = "periodic_table"
version = "0.1.0"
edition = "2021"
publish = false

[dependencies]
Inflector = "*"
json = "*"
serde = { version = "1", features = ["derive"] }
serde_json = "1"
strsim = "*"
termion = "*"
textwrap = "*"
