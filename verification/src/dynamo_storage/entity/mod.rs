//! Items as they come back from the document store.

pub mod account;
pub mod transaction;
pub mod utils;
