//! Durable broker state: the WAL, the idempotency index and their file rules.

pub mod durability;
pub mod files;
pub mod wal;
pub mod idempotency;
