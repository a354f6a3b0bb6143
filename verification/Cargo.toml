[package]
name = "rcards"
version = "0.1.0"
edition = "2021"
publish = false

[dependencies]
crossterm = "*"
ctrlc = "*"
rustyline = "*"
serde = { version = "*", features = ["derive"] }
serde_json = "*"
tabled = "*"
