[package]
name = "prison_registry"
version = "0.1.0"
edition = "2021"
publish = false

[dependencies]
candid = "0.9"
ic-cdk = "0.11"
ic-stable-structures = "0.6"
serde = { version = "1", features = ["derive"] }
