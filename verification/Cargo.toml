[package]
name = "jetemail"
version = "0.1.0"
edition = "2021"
publish = false

[dependencies]
anyhow = "1"
base64 = "0.22"
clap = { version = "4", features = ["derive", "env"] }
clap_complete = "4"
comfy-table = "7"
crossterm = "0.28"
dialoguer = "0.11"
directories = "5"
indicatif = "0.17"
mime_guess = "2"
percent-encoding = "2"
ratatui = "0.29"
reqwest = { version = "0.12", default-features = false, features = ["json", "rustls-tls"] }
self-replace = "1"
semver = "1"
serde = { version = "1", features = ["derive"] }
serde_json = "1"
serde_urlencoded = "0.7"
sha2 = "0.10"
tokio = { version = "1", features = ["rt-multi-thread", "macros", "time"] }
toml = "0.8"
url = "2"
zeroize = "1"
