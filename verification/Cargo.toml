[package]
name = "signatory_sgx"
version = "0.1.0"
edition = "2021"
publish = false

[dependencies]
aead = "=0.5.2"
aes-gcm-siv = "=0.11.1"
aesm-client = { version = "=0.2.0", features = ["sgxs"] }
chrono = "=0.4.45"
crossbeam-channel = "=0.4.4"
enclave-runner = "=0.2.1"
env_logger = "=0.7.1"
hex = "=0.4.3"
log = "=0.4.34"
rand = "=0.7.3"
sgx-isa = { version = "=0.3.3", features = ["sgxstd"] }
sgxs-loaders = "=0.2.2"
signatory = { version = "=0.27.1", features = ["ed25519"] }
structopt = "=0.3.26"
subtle-encoding = "=0.5.1"

[dev-dependencies]
bincode = "=1.3.3"
serde = "=1.0.229"
