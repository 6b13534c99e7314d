[package]
name = "li_eskg"
version = "0.1.0"
edition = "2021"
publish = false

[dependencies]
arc-swap = "1"
bytes = "1"
chrono = "0.4"
crossbeam-channel = "0.5"
hashbrown = "*"
ordered-float = "*"
petgraph = "*"
rayon = "1"
serde = { version = "1", features = ["derive"] }
smallvec = "1"
thiserror = "*"
tracing = "0.1"

[dev-dependencies]
serde_json = "1"
