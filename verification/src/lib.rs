//! Decision logic of a resilient transfer engine: retry policy, resumable
//! chunked streaming, paginated fetching and per-item bookkeeping.

pub mod chunk;
pub mod encode;
pub mod fetch;
pub mod outcome;
pub mod page;
pub mod results;
pub mod retry;
pub mod transfer;
pub mod units;
