[package]
name = "codetree"
version = "2.1.0"
edition = "2021"
publish = false

[dependencies]
chrono = { version = "0.4", features = ["serde"] }
clap = "4"
handlebars = "*"
regex = "1"
serde = { version = "1", features = ["derive"] }
serde_json = "1"
walkdir = "2"
winapi = { version = "0.3", features = ["fileapi", "winnt"] }
