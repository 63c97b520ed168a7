//! Fixed-duration OHLC candles from time-ordered trade executions.
//!
//! The heart of the crate is [`crypto_data::aggregate`], which cuts a
//! newest-first run of trades into windows of a given length and summarises
//! every closed window as a [`crypto_data::Candle`]. Prices are exact decimals
//! ([`decimal::ExactDecimal`]); no binary floating point is involved anywhere.
pub mod crypto_data;
pub mod decimal;
pub mod polygon_client;
pub mod window_laws;
pub mod windowing;
