//! Zone-based tracking of tradable symbols: a zone engine over candlestick
//! history, a per-symbol status state machine, a hash-chained ledger of
//! snapshots with a capacity limit, and the selection, decision and exit rules
//! that a periodic scheduler runs over them.
//!
//! Prices, volumes and profits are fixed-point integers with eight decimals
//! (see [`dto::PRICE_SCALE`]).
//!
//! - [`trade`]: the zone engine, from candlestick histories to a snapshot.
//! - [`status_trade`]: the status state machine of each bias.
//! - [`blockchain`]: blocks, chains and the ledger; [`integrity`] proves that
//!   the block encoding is injective, so tampering shows.
//! - [`crypto_candidate`]: offering a tick's snapshots to the ledger and
//!   choosing at most one new symbol.
//! - [`decide`], [`swap`]: the action for a status, and the exit rules.
//! - [`schedule`]: the periodic task's on/off state.
//! - [`monitor`]: the zone that a price sits in, and counts per zone.
//! - [`numeric`], [`order`], [`signing`]: decimal text, order sizes and
//!   request signatures for the exchange.

pub mod blockchain;
pub mod crypto_candidate;
pub mod decide;
pub mod dto;
pub mod integrity;
pub mod monitor;
pub mod numeric;
pub mod order;
pub mod schedule;
pub mod signing;
pub mod status_trade;
pub mod swap;
pub mod trade;
