[package]
name = "font-awesome-embed"
version = "0.1.0"
edition = "2021"
publish = false

[dependencies]
clap = { version = "4", features = ["derive"] }
serde = { version = "1", features = ["derive"] }
serde_json = "1"
toml = "*"
ureq = { version = "3", features = ["json"] }
syn = { version = "2", features = ["full"] }
quote = "1"
proc-macro2 = "1"
