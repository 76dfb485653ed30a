[package]
name = "candy_mint"
version = "0.1.0"
edition = "2021"
publish = false

[dependencies]
solana-program = "1.17"
mpl-token-metadata = "3.2"
bytemuck = "1"
switchboard-solana = "0.29"
anchor-lang = "0.29"
tokio = { version = "1", features = ["rt-multi-thread", "macros"] }
