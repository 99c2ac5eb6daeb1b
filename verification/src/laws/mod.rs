//! The laws of the ledger, each proved from the definitions the operations are
//! stated with.

pub mod concurrency;
pub mod consistency;
pub mod serial;
