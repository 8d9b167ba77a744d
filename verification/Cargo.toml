[package]
name = "bitcord_core"
version = "0.1.0"
edition = "2021"
publish = false

[dependencies]
anyhow = "1"
argon2 = "0.5"
base64 = "0.22"
bs58 = "0.5"
chacha20poly1305 = "0.10"
chrono = { version = "0.4", features = ["serde"] }
directories = "5"
ed25519-dalek = { version = "2", features = ["rand_core", "pkcs8", "serde"] }
hkdf = "0.12"
http = "1"
if-addrs = "0.13"
igd = "0.12"
jsonrpsee = { version = "0.24", features = ["server"] }
mdns-sd = "0.13"
pkcs8 = "0.10"
postcard = { version = "1", features = ["alloc", "use-std"] }
quinn = { version = "0.11", default-features = false, features = ["runtime-tokio", "rustls-ring"] }
rand = "0.8"
rcgen = "0.13"
rustls = { version = "0.23", default-features = false, features = ["ring", "std"] }
serde = { version = "1", features = ["derive"] }
serde_json = "1"
sha2 = "0.10"
tokio = { version = "1", features = ["rt-multi-thread", "macros", "sync", "time", "net", "io-util"] }
toml = "0.8"
tower = "0.4"
tower-http = { version = "0.5", features = ["cors"] }
tracing = "0.1"
ulid = { version = "1", features = ["serde"] }
x25519-dalek = { version = "2", features = ["static_secrets"] }
