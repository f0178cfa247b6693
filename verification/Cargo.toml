[package]
name = "rns_vpn"
version = "0.1.0"
edition = "2021"
publish = false

[dependencies]
etherparse = "*"
reticulum = "*"
riptun = "*"
tokio = { version = "*", features = ["full"] }
clap = { version = "*", features = ["derive"] }
serde = { version = "*", features = ["derive"] }
toml = "*"
log = "*"
env_logger = "*"
ipnet = { version = "*", features = ["serde"] }
nix = "*"
pem = "*"
ed25519-dalek = { version = "*", features = ["pkcs8", "pem"] }
x25519-dalek = { version = "*", features = ["static_secrets"] }
