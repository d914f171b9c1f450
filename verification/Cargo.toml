[package]
name = "knightingale_core"
version = "0.1.0"
edition = "2021"
publish = false

[dependencies]
secrecy = "0.10"
sha2 = "0.10"
serde = { version = "1", features = ["derive"] }
serde_json = "1"
toml = "0.8"
figment = { version = "0.10", features = ["toml", "env"] }
directories = "5"
dotenvy = "0.15"
reqwest = { version = "0.12", default-features = false, features = ["blocking", "multipart", "json", "rustls-tls"] }
rubato = "0.15"
hound = "3"
interprocess = "2"
crossbeam-channel = "0.5"
ctrlc = "3"
tracing = "0.1"
tracing-subscriber = { version = "0.3", default-features = false, features = ["env-filter", "fmt", "std"] }
clap = { version = "4", features = ["derive"] }
inquire = { version = "0.7", default-features = false, features = ["crossterm"] }
comfy-table = { version = "7", default-features = false }
anstyle = "1"
miette = { version = "7", default-features = false, features = ["derive"] }
thiserror = "1"
