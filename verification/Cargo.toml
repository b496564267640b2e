[package]
name = "slotpilot"
version = "0.1.0"
edition = "2021"
publish = false

[dependencies]
crossbeam-queue = "=0.3.14"
cpal = "=0.18.2"
rustfft = "=6.4.1"
serde = { version = "=1.0.229", features = ["derive"] }
serde_json = "=1.0.154"
thiserror = "=2.0.21"
mfsk-core = "=0.15.0"
interprocess = "2"
fs2 = "0.4"
nix = { version = "*", features = ["user"] }
