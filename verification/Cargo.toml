[package]
name = "resonance"
version = "0.1.0"
edition = "2021"
publish = false

[dependencies]
crc32fast = "=1.5.4"
flate2 = "=1.1.10"
image = { version = "=0.25.10", default-features = false, features = ["png", "jpeg", "bmp", "gif", "tga", "webp"] }
bincode = "=1.3.3"
serde = { version = "=1.0.229", features = ["derive"] }
anyhow = "=1.0.104"
thiserror = "=2.0.21"
walkdir = "=2.5.0"
tokio = { version = "=1.54.1", features = ["fs", "sync", "rt", "rt-multi-thread"] }
dashmap = "=6.2.1"
notify = "=8.2.1"
log = "=0.4.35"
env_logger = "=0.11.11"
chrono = "=0.4.45"
glam = "=0.29.3"
tobj = "=4.0.5"
gltf = "=1.4.1"
symphonia = "=0.5.5"
renet = "1"
renet_netcode = "1"
