//! The entities the daemon keeps.

pub mod database;
