//! The inputs of the operations.

pub mod account;
pub mod transaction;
