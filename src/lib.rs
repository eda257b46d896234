//! Chain-event indexing: decoding of ledger blocks into application events,
//! and the per-subscription tracking state machine that streams them.
pub mod json;
pub mod event;
pub mod extract;
pub mod node;
pub mod tracker;
pub mod candle;
