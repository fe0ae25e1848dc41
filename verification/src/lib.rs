//! Structural differences between JSON documents.
//!
//! [`diff::calculate`] compares two values tree by tree and reports, for every
//! position at which they disagree, whether a value was changed, added or
//! removed. Every function states what it returns over the mathematical model
//! of its arguments, and [`laws`] proves what follows for all values.

pub mod number;
pub mod value;
pub mod diff;
pub mod pairing;
pub mod printer;
pub mod laws;
