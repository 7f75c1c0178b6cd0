[package]
name = "move_mutation_test"
version = "0.1.0"
edition = "2021"
publish = false

[dependencies]
anyhow = "*"
clap = { version = "*", features = ["derive"] }
serde = { version = "*", features = ["derive"] }
tempfile = "*"
fs_extra = "*"
termcolor = "*"
