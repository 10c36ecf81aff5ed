//! Generation of transfer transactions in batches.
pub mod simple_transfers_generator;
pub mod transaction_builder;
pub mod transaction_generator;
