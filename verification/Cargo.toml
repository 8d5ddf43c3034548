[package]
name = "ghostkey"
version = "0.1.0"
edition = "2021"
publish = false

[dependencies]
base64 = "=0.22.1"
blake3 = "=1.8.7"
p256 = "=0.13.2"
rand_core = { version = "=0.6.4", features = ["getrandom"] }
sha2 = "=0.10.9"
serde = { version = "=1.0.229", features = ["derive"] }
serde_json = "=1.0.154"
rmp-serde = "=1.3.1"
ciborium = "=0.2.2"
curve25519-dalek = { version = "=4.1.3", features = ["digest", "rand_core"] }
chrono = { version = "=0.4.45", features = ["serde"] }
clap = "=4.6.7"
colored = "=2.2.0"
log = "=0.4.34"
env_logger = "=0.11.11"
dotenv = "=0.15.0"
tokio = { version = "=1.54.1", features = ["rt-multi-thread", "macros", "net", "time", "sync"] }
axum = "=0.7.9"
tower-http = { version = "=0.5.2", features = ["trace", "cors"] }
tokio-rustls = "=0.24.1"
rustls-pemfile = "=1.0.4"
async-stripe = { version = "=0.41.0", default-features = false, features = ["runtime-tokio-hyper"] }
