[package]
name = "artchiver"
version = "0.1.0"
edition = "2021"
publish = false

[dependencies]
sha2 = "=0.10.9"
urlencoding = "=2.1.3"
ureq = { version = "=3.5.1", default-features = false }
anyhow = "=1.0.104"
log = "=0.4.35"
crossbeam = "=0.8.5"
parking_lot = "=0.12.5"
serde = { version = "=1.0.229", features = ["derive"] }
serde_json = "=1.0.154"
jiff = { version = "=0.2.39", features = ["serde"] }
rusqlite = { version = "=0.41.1", features = ["bundled", "array"] }
thiserror = "=2.0.21"
rand = "=0.9.5"
csv = "1"
rss = "2"
