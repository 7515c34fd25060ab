[package]
name = "vivo"
version = "0.10.1"
edition = "2021"
publish = false

[dependencies]
kdl = "6"
knuffel = "3"
serde = { version = "1", features = ["derive"] }
serde_yml = "0.0.12"
serde_json = "1"
regex = "1"
clap = { version = "4", features = ["cargo"] }
colored = "2"
crossterm = "0.28"
ratatui = "0.29"
inquire = "0.7"
ctrlc = "3"
env_logger = "0.11"
log = "0.4"
is-terminal = "0.4"
self_update = "0.41"
tempfile = "3"
term_size = "0.3"
