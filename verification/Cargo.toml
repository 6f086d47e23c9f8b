[package]
name = "candy_holders"
version = "0.1.0"
edition = "2021"
publish = false

[dependencies]
gumdrop = { version = "=0.8.1", features = ["default_expr"] }
rusqlite = { version = "=0.31.0", features = ["bundled"] }
solana-rpc-client = { version = "2.2", default-features = false }
solana-rpc-client-api = "2.2"
solana-transaction-status-client-types = "2.2"
solana-account-decoder-client-types = "2.2"
solana-pubkey = "2.2"
solana-signature = "2.2"
solana-keypair = "2.2"
solana-signer = "2.2"
solana-transaction = "2.2"
solana-instruction = "2.2"
