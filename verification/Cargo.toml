[package]
name = "toon_table"
version = "0.1.0"
edition = "2021"
publish = false

[dependencies]
serde_toon2 = "*"
serde = { version = "*", features = ["derive"] }
thiserror = "*"
syn = "*"
