[package]
name = "theseus"
version = "0.1.0"
edition = "2021"
publish = false

[dependencies]
serde = { version = "1", features = ["derive"] }
serde_json = "1"
dirs = "*"
tempfile = "3"
tokio = { version = "1", default-features = false, features = ["rt", "fs"] }
tracing = "0.1"
junction = "*"
winreg = "*"
symlink = "*"
