//! The Nix host adapter: the commands it runs, its host probe, proposals and
//! their capture, the protected-path check and the promotion steps.

pub mod command_runner;
pub mod probe;
pub mod capture;
pub mod propose;
pub mod promotion;
pub mod adapter;
pub mod protected;
