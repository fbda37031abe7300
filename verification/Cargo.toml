[package]
name = "helianto"
version = "0.1.0"
edition = "2021"
publish = false

[dependencies]
chrono = "*"
getopts = "*"
handlebars = "*"
log = "*"
num = "*"
pretty_env_logger = "*"
pulldown-cmark = "*"
regex = "*"
serde = { version = "*", features = ["derive"] }
toml = "*"
walkdir = "*"
