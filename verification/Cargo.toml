[package]
name = "password_store"
version = "0.1.0"
edition = "2021"
publish = false

[dependencies]
candid = "=0.10.37"
ic-cdk = "=0.13.6"
ic-cdk-macros = "=0.13.2"
serde = { version = "1", features = ["derive"] }
