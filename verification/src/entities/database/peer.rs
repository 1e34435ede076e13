//! A known peer.
use vstd::prelude::*;

verus! {

/// A peer: its database id, its display name, its onion address, and whether it is
/// connected now.
#[derive(Debug, Clone, PartialEq, Eq)]
pub struct Peer {
    pub id: u32,
    pub name: String,
    pub address: String,
    pub connected: bool,
}

/// A peer as plain values.
pub struct PeerView {
    pub id: u32,
    pub name: Seq<char>,
    pub address: Seq<char>,
    pub connected: bool,
}

impl View for Peer {
    type V = PeerView;

    open spec fn view(&self) -> PeerView {
        PeerView { id: self.id, name: self.name@, address: self.address@, connected: self.connected }
    }
}

impl Peer {
    /// A new, not yet stored, not connected peer with the given name and address (its id is
    /// given by the database when it is stored).
    pub fn build(name: &str, address: &str) -> (p: Self)
        ensures
            p.id == 0,
            p.name@ == name@,
            p.address@ == address@,
            !p.connected,
    {
        let address = address.to_owned();
        let name = name.to_owned();
        Self { id: 0, name, address, connected: false }
    }
}

/// Access to the peers of the local database; errors are given as their text.
pub trait PeerData {
    /// All stored peers, none of them connected.
    fn list_all_peers(&self) -> Result<Vec<Peer>, String>;

    /// The peer with this address, if there is exactly one.
    fn get_peer_from_addr(&self, addr: &str) -> Result<Option<Peer>, String>;

    /// The peer with this id, if there is one.
    fn get_peer_from_id(&self, id: u32) -> Result<Option<Peer>, String>;

    /// Stores the peer's name and address, and returns it with the id it was given.
    fn insert_peer(&self, peer: Peer) -> Result<Peer, String>;

    /// Deletes the peer with this id.
    fn delete_peer(&self, id: u32) -> Result<(), String>;

    /// Gives the peer with this id a new name.
    fn rename_peer(&self, id: u32, new_name: String) -> Result<(), String>;
}

} // verus!
