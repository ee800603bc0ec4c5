[package]
name = "bacrama_ranking"
version = "0.1.0"
edition = "2021"
publish = false

[dependencies]
clap = { version = "*", features = ["derive"] }
csv = "*"
regex = "*"
rustc-hash = "*"
serde = { version = "*", features = ["derive"] }
smol_str = "*"
tabwriter = "*"
