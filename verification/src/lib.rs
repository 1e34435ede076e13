//! Protocol library of the conan end-to-end encrypted chat.

pub mod comm;
pub mod config;
pub mod constants;
pub mod crypto;
pub mod entities;
pub mod msg;
pub mod operations;
pub mod requests;
pub mod tui;
pub mod wire;
