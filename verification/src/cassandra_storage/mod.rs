//! The column store: the statements that read and write accounts and
//! transactions, and how an atomic batch becomes one logged batch of
//! conditional statements.

pub mod storage;
