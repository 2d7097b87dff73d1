[package]
name = "node_resolution"
version = "0.1.0"
edition = "2021"
publish = false

[dependencies]
url = "=2.5.8"
deno_semver = "=0.5.16"
deno_media_type = "=0.1.4"
deno_npm = "=0.21.4"
deno_package_json = "=0.62.0"
serde = { version = "=1.0.229", features = ["derive"] }
serde_json = { version = "=1.0.154", features = ["preserve_order"] }
bincode = "=1.3.3"
junction = "*"
