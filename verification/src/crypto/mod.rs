//! Cryptographic layer: AEAD and key derivation primitives, and the Double Ratchet.

pub mod aead;
pub mod dh;
pub mod ratchet;
pub mod ratchet_model;
pub mod ratchet_reorder;
pub mod ratchet_laws;
