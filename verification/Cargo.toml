[package]
name = "scratchsmith"
version = "0.1.0"
edition = "2021"
publish = false

[dependencies]
anyhow = "1"
clap = { version = "4", features = ["derive"] }
clap_complete = "4"
docker_credential = "1"
flate2 = "1"
goblin = "*"
oci-client = "*"
reqwest = "*"
serde = { version = "1", features = ["derive"] }
serde_json = "1"
sha2 = "0.10"
tar = "0.4"
tempfile = "3"
tokio = { version = "1", features = ["rt"] }
toml = "*"
walkdir = "2"

[dev-dependencies]
arbitrary = { version = "1", features = ["derive"] }
