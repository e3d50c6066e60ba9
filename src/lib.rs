//! Streaming of normalized trades out of an append-only, id-ordered store,
//! bounded by a half-open time window.
pub mod instant;
pub mod store;
pub mod stream;
pub mod trade;

pub use instant::Instant;
pub use stream::{IterState, PageError, Phase, Step, TradeIter, DEFAULT_PAGE_SIZE};
pub use trade::{Trade, TradeRow};
