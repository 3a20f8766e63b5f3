[package]
name = "scrut"
version = "0.1.0"
edition = "2021"
publish = false

[dependencies]
regex = "1"
globset = "0.4"
sha2 = "*"
rand = "*"
clap = "4"
dirs = "*"
chrono = "0.4"
glob = "0.3"
open = "5"
owo-colors = "4"
serde = { version = "1", features = ["derive"] }
toml = "*"
once_cell = "1"

[dev-dependencies]
hex = "0.4"
