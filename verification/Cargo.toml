[package]
name = "iroh_willow"
version = "0.1.0"
edition = "2021"
publish = false

[dependencies]
anyhow = "=1.0.104"
bao-tree = "=0.16.1"
bytes = "=1.12.1"
derive_more = { version = "=2.1.1", features = ["debug", "deref", "from", "into"] }
ed25519-dalek = { version = "=2.2.0", features = ["rand_core"] }
futures-lite = "=2.6.1"
ipld-core = { version = "=0.4.3", features = ["serde"] }
postcard = { version = "=1.1.3", features = ["alloc", "use-std"] }
redb = "=2.6.4"
self_cell = "=1.3.0"
serde = { version = "=1.0.229", features = ["derive"] }
serde_ipld_dagcbor = "=0.6.4"
thiserror = "=2.0.21"
tokio = { version = "=1.54.1", features = ["io-util", "sync"] }
tokio-util = { version = "=0.7.20", features = ["io"] }
tracing = "=0.1.44"
willow-data-model = "=0.1.0"

[dev-dependencies]
rand_core = "=0.6.4"
rand_chacha = "=0.3.1"
