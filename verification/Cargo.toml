[package]
name = "xsynth"
version = "0.1.0"
edition = "2021"
publish = false

[dependencies]
serde = { version = "1", features = ["derive"] }
serde_json = "1"
thiserror = "1"
lazy_static = "1"
directories = "5"
rayon = "1"
crossbeam-channel = "0.5"
spin_sleep = "1"
biquad = "0.4"
