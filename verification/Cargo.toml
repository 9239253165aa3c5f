[package]
name = "schedmap"
version = "0.1.0"
edition = "2021"
publish = false

[dependencies]
quick-xml = "=0.22.0"
csv = "=1.4.0"
bus = "=2.4.1"
directories = "=2.0.2"
docopt = "=1.1.1"
lazy_static = "=1.5.1"
multipart = { version = "=0.16.1", default-features = false, features = ["server"] }
ws = "=0.9.2"
rocket = "0.5"
serde = { version = "=1.0.229", features = ["derive"] }
serde_derive = "=1.0.229"
