//! Classification of chat-style trade messages and the per-item statistics
//! drawn from them.

pub mod aggregate;
pub mod analysis;
pub mod catalog;
pub mod chars;
pub mod classify;
pub mod decimal;
pub mod order;
pub mod pattern;
pub mod price;
pub mod rank;
pub mod rates;
pub mod span;
pub mod stats;
pub mod summary;
pub mod timestamp;
