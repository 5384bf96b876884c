[package]
name = "flatpage"
version = "0.1.0"
edition = "2021"
publish = false

[dependencies]
pulldown-cmark = { version = "*", default-features = false, features = ["html"] }
serde = { version = "*", features = ["derive"] }
serde_yml = "*"
thiserror = "*"
