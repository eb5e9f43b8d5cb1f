[package]
name = "solana_banking_bench_historical"
version = "0.1.0"
edition = "2021"
publish = false

[dependencies]
anyhow = "1"
bs58 = "0.5"
futures = "0.3"
log = "0.4"
reqwest = { version = "0.11", default-features = false }
solana-clock = "2.2"
solana-hash = "2.2"
solana-message = "2.2"
solana-perf = "2.2"
solana-program = { version = "2.2", default-features = false }
solana-pubkey = "2.2"
solana-signature = "2.2"
solana-transaction = "2.2"
solana-transaction-status-client-types = "2.2"
solana-vote-program = "2.2"
tempfile = "3"
tokio = { version = "1", features = ["macros", "rt-multi-thread", "time"] }
