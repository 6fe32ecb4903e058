[package]
name = "earendil_core"
version = "0.1.0"
edition = "2021"
publish = false

[dependencies]
anyhow = "=1.0.104"
async-trait = "=0.1.92"
blake3 = "=1.8.7"
bytemuck = { version = "=1.25.2", features = ["min_const_generics"] }
bytes = { version = "=1.12.1", features = ["serde"] }
clone-macro = "=1.0.0"
concurrent-queue = "=2.5.0"
dashmap = "=5.5.3"
futures-util = "=0.3.34"
hex = "=0.4.3"
itertools = "=0.12.1"
log = "=0.4.34"
lru = "=0.12.5"
moka = { version = "=0.12.16", features = ["sync"] }
nanorpc = "=0.1.13"
parking_lot = "=0.12.5"
scopeguard = "=1.2.0"
serde = { version = "=1.0.229", features = ["derive"] }
serde_json = "=1.0.154"
smol = "=1.3.0"
smol-timeout = "=0.6.1"
smolscale = "=0.4.16"
sosistab2 = "=0.10.21"
sosistab2-obfsudp = "=0.1.12"
stdcode = "=0.1.14"
thiserror = "=1.0.69"
