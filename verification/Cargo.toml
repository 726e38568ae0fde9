[package]
name = "magic_map"
version = "0.5.0"
edition = "2021"
publish = false

[dependencies]
syn = { version = "=2.0.119", features = ["full", "visit", "extra-traits"] }
proc-macro2 = { version = "=1.0.107", features = ["span-locations"] }
quote = "=1.0.47"
uuid = "=1.29.0"
rust_decimal = "=1.43.0"
chrono = "=0.4.45"
serde_json = "=1.0.154"
