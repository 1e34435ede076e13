//! Modes of the terminal interface.
use vstd::prelude::*;

verus! {

/// What an input screen is for.
#[derive(Debug, Clone, PartialEq, Eq)]
pub enum InputMode {
    NewPeer,
    RenamePeer,
}

/// What a confirmation screen is for.
#[derive(Debug, Clone, PartialEq, Eq)]
pub enum ConfirmMode {
    Exit,
    DeletePeer,
}

/// What a loading screen waits for.
#[derive(Debug, Clone, PartialEq, Eq)]
pub enum LoadingMode {
    NewPeer,
    ServerStarted,
}

/// Whether keys edit the chat bar (with the cursor's byte position) or act as commands.
#[derive(Debug, Clone, Copy, PartialEq, Eq)]
pub enum Mode {
    Normal,
    Insert { cursor_pos: usize },
}

} // verus!
