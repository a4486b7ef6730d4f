[package]
name = "xdxd-backup"
version = "0.1.0"
edition = "2021"
publish = false

[dependencies]
chrono = "0.4"
uuid = { version = "0.8", features = ["v4"] }
roxmltree = "*"
clap = "2"
serde = { version = "1", features = ["derive"] }
serde_json = "1"
handlebars = "4"
libc = "0.2"
