[package]
name = "ss_relay"
version = "0.1.0"
edition = "2021"
publish = false

[dependencies]
shadowsocks-crypto = { version = "=0.8.0", features = ["v1-stream", "v2"] }
aes-gcm = "=0.10.3"
chacha20poly1305 = "=0.10.1"
hkdf = "=0.12.4"
sha1 = "=0.10.7"
blake3 = "=1.8.7"
chacha20 = "=0.9.1"
aes = "=0.8.4"
ctr = "=0.9.2"
bytes = "=1.12.1"
tokio = { version = "=1.54.1", features = ["full"] }
futures = "=0.3.34"
pin-project = "=1.1.13"
log = "=0.4.34"
clap = "=3.2.25"
serde = { version = "=1.0.229", features = ["derive"] }
serde_yaml = "=0.9.34"
json5 = "=1.3.4"
lazy_static = "=1.5.1"
nix = { version = "=0.31.3", features = ["net", "socket"] }
byte_string = "=1.0.0"
