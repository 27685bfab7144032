[package]
name = "autoparq"
version = "0.1.0"
edition = "2021"
publish = false

[dependencies]
ahash = "0.8"
hyperloglog = "1"
regex = "1"
arrow = { version = "54", default-features = false }
parquet = { version = "54", default-features = false, features = ["arrow", "snap", "zstd", "lz4", "flate2", "brotli"] }
bytes = "1"
serde = { version = "1", features = ["derive"] }
serde_json = "1"
thiserror = "1"
rayon = "1"
tempfile = "3"
instant = "0.1"
wasm-bindgen = "0.2"
js-sys = "0.3"
console_error_panic_hook = "0.1"
pyo3 = "0.22"
