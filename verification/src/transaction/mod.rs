//! Transactions: the state vocabulary, WAL recovery checks and the engine.

pub mod engine;
pub mod recovery;
pub mod state;
