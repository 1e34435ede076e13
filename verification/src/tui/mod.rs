//! The terminal interface's state and how keys change it.

pub mod edit;
pub mod functions;
pub mod ipc;
pub mod key_laws;
pub mod matches;
pub mod keys;
