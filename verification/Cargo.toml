[package]
name = "auberge"
version = "0.1.0"
edition = "2021"
publish = false

[dependencies]
chrono = { version = "0.4", default-features = false, features = ["clock", "std"] }
clap = { version = "4", default-features = false, features = ["std", "derive", "help", "usage", "error-context"] }
cloudflare = { version = "0.14", default-features = false }
color-eyre = { version = "0.6", default-features = false }
dialoguer = { version = "0.12", default-features = false }
dirs = "6"
eyre = "0.6"
include_dir = "0.7"
keyring = { version = "3", default-features = false }
minijinja = "2"
regex = "1"
serde = { version = "1", features = ["derive"] }
serde_json = "1"
serde_yaml = "0.9"
shellexpand = "3"
skim = { version = "*", default-features = false }
tabled = { version = "0.20", default-features = false, features = ["std", "derive"] }
tempfile = "3"
tokio = { version = "1", features = ["rt-multi-thread", "macros", "time"] }
toml = "0.8"
