//! A minimal ledger core: accounts, the signed transactions that justify every
//! balance change, and the deposit, withdrawal and transfer operations that
//! move money under optimistic concurrency control.

pub mod cassandra_storage;
pub mod clock;
pub mod decimal;
pub mod dto;
pub mod dynamo_storage;
pub mod error;
pub mod laws;
pub mod ledger;
pub mod model;
pub mod money;
pub mod number;
pub mod plan;
pub mod service;
pub mod storage;
pub mod token;
pub mod use_case;
