//! Commands and responses exchanged between the daemon and its user interface.

pub mod daemon;
pub mod enums;
