[package]
name = "skald"
version = "0.1.0"
edition = "2021"
publish = false

[dependencies]
serde_json = "=1.0.151"
rusqlite = { version = "*", features = ["hooks", "bundled"] }
crossbeam = "=0.8.5"
milli = "*"
anyhow = "*"
dashmap = "*"
parking_lot = "*"
once_cell = "*"
r2d2 = "*"
r2d2_sqlite = "=0.25.0"
