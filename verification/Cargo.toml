[package]
name = "peryx-ecosystem-pypi"
version = "0.1.0"
edition = "2021"
publish = false

[dependencies]
axum = { version = "0.8", default-features = false }
blake2 = "0.10"
bytes = "1"
futures-util = { version = "0.3", default-features = false }
pep440_rs = "0.7"
regex = "1"
reqwest = { version = "0.12", default-features = false, features = ["stream"] }
serde = { version = "1", features = ["derive"] }
serde_json = "1"
thiserror = "2"
time = { version = "0.3", features = ["parsing", "formatting"] }
url = "2"
