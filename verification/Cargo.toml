[package]
name = "httpie"
version = "0.1.0"
edition = "2021"
publish = false

[dependencies]
anyhow = "1"
clap = { version = "4", features = ["derive"] }
colored = "2"
jsonxf = "1"
mime = "0.3"
reqwest = { version = "0.12", features = ["json"] }
syntect = "5"
tokio = { version = "1", features = ["full"] }
