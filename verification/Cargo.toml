[package]
name = "pqc_staking"
version = "0.1.0"
edition = "2021"
publish = false

[dependencies]
bs58 = "=0.5.1"
near-sdk = { version = "=5.30.0", features = ["legacy", "unit-testing"] }
pqcrypto-dilithium = { version = "=0.4.6", default-features = false, features = ["std"] }
pqcrypto-falcon = { version = "=0.4.1", default-features = false, features = ["std"] }
pqcrypto-sphincsplus = { version = "=0.7.2", default-features = false, features = ["std"] }
pqcrypto-traits = "=0.3.5"
thiserror = "=1.0.69"
