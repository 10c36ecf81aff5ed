[package]
name = "transaction_bench"
version = "0.1.0"
edition = "2021"
publish = false

[dependencies]
rand = "0.8"
solana-clap-v3-utils = "=3.1.14"
solana-cli-config = "=3.1.14"
solana-commitment-config = "=3.1.1"
solana-compute-budget-interface = "=3.1.0"
solana-hash = { version = "=4.7.0", features = ["decode", "copy", "std"] }
solana-instruction = { version = "=3.5.1", features = ["std"] }
solana-keypair = "=3.1.2"
solana-message = { version = "=4.6.0", features = ["wincode"] }
solana-pubkey = "=4.4.0"
solana-quic-definitions = "=3.0.0"
solana-signer = "=3.0.1"
solana-system-interface = { version = "=3.3.0", features = ["wincode"] }
solana-transaction = { version = "=4.3.0", features = ["wincode"] }
spl-instruction-padding-interface = "=1.0.0"
wincode = "=0.6.3"
clap = { version = "4", features = ["derive", "cargo"] }
log = "0.4"
thiserror = "2"
tokio = { version = "1", features = ["full"] }
tokio-util = "0.7"
