//! A passive observability engine over a stream of parsed on-chain swap
//! events: it maintains rolling per-token and per-wallet metrics, detects
//! notable behavioural patterns (price movement, buy pressure, whale
//! transactions, post-dip recovery, new tokens), and gates the resulting
//! alerts through a per-key rate limiter before they are handed to an
//! external notification sink. It performs no trading.
//!
//! All monetary quantities are integers: SOL amounts are lamports
//! (1 SOL = 1_000_000_000 lamports) and prices are fixed-point values in an
//! arbitrary quote unit chosen by the caller; every percentage and ratio
//! rule is evaluated exactly by cross-multiplication, so no floating point
//! is involved.

pub mod addr;
pub mod event;
pub mod metrics;
pub mod store;
pub mod config;
pub mod detect;
pub mod ratelimit;
pub mod render;
pub mod engine;
pub mod laws;
pub mod report;
