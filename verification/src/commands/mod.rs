//! The decisions behind the tool commands.

pub mod add;
pub mod lists;
pub mod ota;
pub mod probe;
pub mod send;
pub mod set;
pub mod version;
