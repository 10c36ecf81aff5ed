//! Verified core of a transaction load generator.

pub mod blockhash_updater;
pub mod cli;
pub mod error;
pub mod generator;
pub mod priority_fee;
pub mod run_client;
pub mod startup;
pub mod text;
pub mod web_address;
pub mod wire;
