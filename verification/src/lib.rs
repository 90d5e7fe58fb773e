//! Level-2 order-book ingestion and aggregation.
//!
//! The library reads the frames and answers of several exchanges into
//! normalized books, merges the books of all exchanges by price, and works
//! out the bounded summary that is published.
//!
//! - [`decimal`]: exact decimals and their numeric order.
//! - [`ladder`], [`orderbook`]: one exchange's book, a ladder of price levels
//!   for each side.
//! - [`aggregate`], [`supervisor`]: the cross-exchange view and its summary.
//! - [`apitree`]: the table of exchanges and the decoders of their messages.
//! - [`exchange`]: the driver of one exchange's feed. It decides; its caller
//!   opens streams, sends, fetches and reads the clock.
//! - [`json`], [`text`], [`names`], [`error`]: what the others share.

pub mod aggregate;
pub mod apitree;
pub mod decimal;
pub mod error;
pub mod exchange;
pub mod json;
pub mod ladder;
pub mod names;
pub mod orderbook;
pub mod supervisor;
pub mod text;
