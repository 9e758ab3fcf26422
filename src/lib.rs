//! Content-type resolution and multi-format clipboard transactions.

pub mod codec;
pub mod colorize;
pub mod error;
pub mod order;
pub mod transaction;
