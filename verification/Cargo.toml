[package]
name = "clmm_core"
version = "0.1.0"
edition = "2021"
publish = false

[dependencies]
borsh = { version = "=1.8.1", features = ["derive"] }
solana-account-info = "=3.1.1"
solana-msg = "=3.1.0"
solana-program-error = "=3.0.1"
solana-pubkey = { version = "=4.4.0", features = ["borsh"] }
thiserror = "=2.0.21"
