//! Tool descriptors: one module per operation, reached from the dispatcher's
//! `match` and never from a table.

pub mod config_propose;
pub mod events;
pub mod system_info;
pub mod transaction;
