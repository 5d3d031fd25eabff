[package]
name = "roster"
version = "0.1.0"
edition = "2021"
publish = false

[dependencies]
anyhow = "=1.0.104"
atoi_simd = "=0.18.1"
bytes = "=1.12.1"
cfg-if = "=1.0.5"
coarsetime = "=0.1.38"
config = "=0.15.27"
crc = "=3.4.0"
derive_builder = "=0.20.2"
dotenv = "=0.15.0"
futures = "=0.3.34"
local-sync = "=0.1.1"
monoio = "=0.2.4"
rustc-hash = "=2.1.3"
scc = "=2.4.0"
serde = { version = "=1.0.229", features = ["derive"] }
sharded-thread = "=1.3.1"
thiserror = "=1.0.69"
tracing = "0.1"
tracing-subscriber = { version = "0.3", features = ["env-filter"] }
url = { version = "=2.5.8", features = ["serde"] }
