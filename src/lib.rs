//! A ledger of client accounts driven by a stream of transaction records.
//!
//! Amounts are fixed-point integers counted in ten-thousandths of a
//! currency unit, so every balance change is exact.
pub mod client;
pub mod db;
pub mod engine;
pub mod error;
pub mod protocol;
pub mod record;

pub use client::ClientAccountState;
pub use db::DB;
pub use engine::Engine;
pub use error::{DBError, RecordError};
pub use protocol::{Transaction, TransactionKind};
pub use record::Record;
