[package]
name = "agreement_vault"
version = "0.1.0"
edition = "2021"
publish = false

[dependencies]
sha2 = "*"
candid = "*"
ic-cdk = "*"
ic-cdk-macros = "*"
ic-stable-structures = "*"
serde = { version = "*", features = ["derive"] }
