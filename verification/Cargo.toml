[package]
name = "bitchat"
version = "0.1.0"
edition = "2021"
publish = false

[dependencies]
aes-gcm = "=0.10.3"
anyhow = "1"
base64 = "=0.21.7"
bip39 = { version = "=2.2.2", features = ["rand"] }
cdk = { version = "=0.11.1", default-features = false, features = ["wallet", "auth"] }
chacha20poly1305 = "=0.10.1"
chrono = { version = "0.4", default-features = false, features = ["clock"] }
ciborium-ll = "=0.2.2"
ed25519-dalek = { version = "=2.2.0", features = ["rand_core"] }
hex = "=0.4.3"
hkdf = "=0.12.4"
home = "0.5"
pbkdf2 = { version = "=0.12.2", features = ["hmac"] }
serde_json = "=1.0.154"
sha2 = "=0.10.9"
tokio = { version = "1", features = ["rt"] }
x25519-dalek = { version = "=2.0.1", features = ["static_secrets", "getrandom"] }

[dev-dependencies]
ciborium = "=0.2.2"
