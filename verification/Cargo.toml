[package]
name = "fuzz_dqn"
version = "0.1.0"
edition = "2021"
publish = false

[dependencies]
rand = "=0.8.8"
csv = "=1.4.0"
lazy_static = "=1.5.1"
serde = { version = "=1.0.229", features = ["derive"] }
revm-interpreter = "=1.3.0"
revm-primitives = { version = "=1.3.0", default-features = false, features = ["std"] }
alloy-primitives = "=0.4.2"
tch = "=0.14.0"
plotters = { version = "=0.3.7", default-features = false, features = ["bitmap_backend", "bitmap_encoder", "line_series", "ab_glyph"] }
pyo3 = "=0.20.3"
