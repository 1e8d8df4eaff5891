[package]
name = "lightningcss"
version = "0.1.0"
edition = "2021"
publish = false

[dependencies]
cssparser = "=0.29.6"
data-encoding = "=2.11.1"
parcel_selectors = "=0.24.9"
parcel_sourcemap = { version = "=2.1.1", features = ["json"] }
serde = { version = "=1.0.229", features = ["derive"] }
smallvec = "=1.16.4"
