[package]
name = "executor_account_resolver_svm"
version = "0.1.0"
edition = "2021"
publish = false

[dependencies]
sha2 = "0.10"
solana-pubkey = { version = "2", default-features = false, features = ["curve25519"] }
anchor-lang = "0.31"

[dev-dependencies]
solana-sha256-hasher = "2"
