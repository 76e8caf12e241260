[package]
name = "oblivious_fhe"
version = "0.1.0"
edition = "2021"
publish = false

[dependencies]
tfhe = { version = "=1.0.1", default-features = false, features = ["integer"] }
rand = "=0.8.8"
