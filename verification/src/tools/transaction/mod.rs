//! Transaction tools (protocol v2).

pub mod apply;
pub mod rollback;
pub mod status;
pub mod test;
