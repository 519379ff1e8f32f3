[package]
name = "deskoryn"
version = "0.1.0"
edition = "2021"
publish = false

[dependencies]
anyhow = "=1.0.104"
arboard = "=3.7.0"
async-trait = "=0.1.92"
blake3 = "=1.8.7"
bytes = "=1.12.1"
clap = { version = "=4.6.7", features = ["derive"] }
directories = "=5.0.1"
evdev = { version = "=0.12.2", features = ["tokio"] }
hex = "=0.4.3"
if-addrs = "=0.13.4"
image = { version = "=0.25.10", default-features = false, features = ["png"] }
mdns-sd = "=0.13.11"
postcard = { version = "=1.1.3", features = ["use-std"] }
quinn = "=0.11.12"
rand = "=0.8.8"
rcgen = "=0.13.2"
rustls = { version = "=0.23.46", default-features = false, features = ["ring", "std"] }
serde = { version = "=1.0.229", features = ["derive"] }
serde_json = "=1.0.154"
tokio = { version = "=1.54.1", features = ["full"] }
toml = "=0.8.23"
tracing = "=0.1.44"
tracing-subscriber = { version = "=0.3.23", features = ["env-filter"] }
x11rb = "=0.13.2"
