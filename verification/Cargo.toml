[package]
name = "swap_monitor"
version = "0.1.0"
edition = "2021"
publish = false

[dependencies]
anyhow = "=1.0.104"
chrono = "=0.4.45"
dotenv = "=0.15.0"
solana-sdk = "=5.0.0"
takecell = "=0.1.1"
teloxide = "=0.12.2"
tokio = { version = "=1.53.2", features = ["rt-multi-thread", "macros", "time", "signal"] }
