//! The document store: how accounts and transactions are laid out as items of
//! named attributes, and how an atomic batch becomes one transactional write.

pub mod entity;
pub mod storage;
