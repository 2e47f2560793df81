[package]
name = "modsync"
version = "0.1.0"
edition = "2021"
publish = false

[dependencies]
base64 = "*"
chrono = "*"
clap = { version = "*", features = ["derive"] }
conpty = "*"
curl = "*"
dunce = "*"
fs_extra = "*"
itertools = "*"
jomini = "*"
log = "*"
pretty_env_logger = "*"
reqwest = { version = "*", default-features = false }
ring = "*"
serde = { version = "*", features = ["derive"] }
serde_json = "*"
strip-ansi-escapes = "*"
tokio = { version = "*", features = ["macros", "rt-multi-thread"] }
toml = "*"
walkdir = "*"
zip = { version = "*", default-features = false }
