[package]
name = "lient_core"
version = "0.1.14"
edition = "2021"
publish = false

[dependencies]
anyhow = "1"
dirs = "5"
getrandom = "0.2"
open = "5"
serde = { version = "1", features = ["derive"] }
serde_json = "1"
sha2 = "0.10"
ureq = "2"
