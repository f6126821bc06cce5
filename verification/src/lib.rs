//! A local replica of an exchange's limit order book, kept in step with the venue by
//! combining a point-in-time snapshot with a stream of incremental updates.
//!
//! - [`decimal`]: exact decimals, and the integer key that orders them.
//! - [`level`]: price levels, and a side of the book as a map from price to level.
//! - [`side`]: one side of the book, held in price order.
//! - [`wire`]: the venue's records, with prices and quantities still as text.
//! - [`book`]: the book itself: loading a snapshot, applying an update, reading the
//!   best prices and the ordered levels.
//! - [`sync`]: the controller that decides when to fetch a snapshot, when to adopt
//!   it, and when the book has to be rebuilt.
//! - [`laws`]: what holds of every book, update and controller.
//!
//! The library does no input or output: records are handed in as plain values.

pub mod book;
pub mod decimal;
pub mod laws;
pub mod level;
pub mod side;
pub mod sync;
pub mod wire;
