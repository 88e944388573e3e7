[package]
name = "crev_data"
version = "0.1.0"
edition = "2021"
publish = false

[dependencies]
serde_yaml = "=0.8.26"
chrono = "=0.4.45"
base64 = "=0.13.1"
ed25519-dalek = "=2.2.0"
rand = "=0.8.8"
argonautica = "=0.2.0"
blake2 = "=0.10.6"
hex = "=0.4.3"
structopt = "=0.3.26"
failure = "=0.1.8"
rprompt = "=2.2.0"
rpassword = "=7.5.4"
app_dirs = "=1.2.1"
