//! Agentbed: the broker's authorization ladder, its transaction and event
//! stores, token identity, and the Nix host adapter's planning logic.

pub mod text;
pub mod protocol;
pub mod safety;
pub mod manifest;
pub mod policy;
pub mod clock;
pub mod quota;
pub mod transaction;
pub mod sort;
pub mod storage;
pub mod events;
pub mod tools;
pub mod wire;
pub mod observability;
pub mod dispatch;
pub mod nix;
pub mod adapter;
pub mod config;
pub mod server;
pub mod host;
pub mod audit;
pub mod json;
pub mod hash;
pub mod digest;
pub mod identity;
