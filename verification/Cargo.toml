[package]
name = "clinical_formats"
version = "0.1.0"
edition = "2021"
publish = false

[dependencies]
quick-xml = "*"
bumpalo = "*"
rust_iso3166 = "*"
serde = { version = "*", features = ["derive"] }
serde_repr = "*"
