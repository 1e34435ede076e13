//! The published list of Tor relays.
use vstd::prelude::*;

verus! {

/// One relay of the list: nickname, fingerprint, addresses, and whether it is running.
#[derive(Debug, Clone)]
pub struct RelayDetail {
    pub n: String,
    pub f: String,
    pub a: Vec<String>,
    pub r: bool,
}

/// The relay list as published.
#[derive(Debug, Clone)]
pub struct TorResponse {
    pub version: String,
    pub build_revision: String,
    pub relays_published: String,
    pub relays: Vec<RelayDetail>,
    pub bridges_published: String,
    pub bridges: Vec<String>,
}

} // verus!
