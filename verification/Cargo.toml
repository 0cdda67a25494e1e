[package]
name = "grouped_env"
version = "0.1.0"
edition = "2021"
publish = false

[dependencies]
rattler_conda_types = "*"
console = "*"
clap = { version = "*", features = ["derive"] }
miette = "*"
