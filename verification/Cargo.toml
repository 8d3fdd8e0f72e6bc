[package]
name = "oauth1_sign"
version = "0.1.0"
edition = "2021"
publish = false

[dependencies]
hmac = "0.12"
sha1 = "0.10"
base64 = "0.22"
rand = "0.8"
async-std = { version = "1", features = ["attributes"] }
surf = "2"
clap = { version = "4", features = ["derive"] }
dotenv = "0.15"
envy = "0.4"
log = "0.4"
pretty_env_logger = "0.5"
serde = { version = "1", features = ["derive"] }
serde_json = "1"

[dev-dependencies]
percent-encoding = "2"
