[package]
name = "muni"
version = "0.1.0"
edition = "2021"
publish = false

[dependencies]
regex = "=1.13.1"
time = { version = "=0.3.55", features = ["formatting", "parsing"] }
serde = { version = "=1.0.229", features = ["derive"] }
serde_json = "=1.0.154"
rusqlite = { version = "=0.41.1", features = ["bundled"] }
tokio = { version = "=1.54.1", features = ["full"] }
reqwest = { version = "=0.12.28", default-features = false }
async-trait = "=0.1.92"
thiserror = "=2.0.21"
log = "=0.4.35"
parking_lot = "=0.12.5"
block2 = "0.6"
core-foundation = "=0.10.1"
core-foundation-sys = "=0.8.7"
core-graphics = "=0.25.0"
foreign-types = "=0.5.0"
objc2 = "=0.6.5"
objc2-app-kit = "=0.3.2"
objc2-foundation = "=0.3.2"
objc2-service-management = "0.3"

[dev-dependencies]
global-hotkey = "=0.9.0"
