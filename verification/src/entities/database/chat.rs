//! A chat message as stored.
use vstd::prelude::*;

use chrono::Utc;

verus! {

/// The database id that stands for the local user in a chat's sender or receiver.
pub const SELF_ID: u32 = 1;

/// A chat message: its database id, sender and receiver ids, text and time.
#[derive(Debug, Clone, PartialEq, Eq)]
pub struct Chat {
    pub id: u32,
    pub sender_id: u32,
    pub receiver_id: u32,
    pub data: String,
    pub time: String,
}

/// Calls `chrono::Utc::now()` and formats it with `to_string()`: the current time as text,
/// of which nothing is known.
#[verifier::external_body]
fn current_time() -> (time: String) {
    Utc::now().to_string()
}

impl Chat {
    /// A new, not yet stored chat message with the given text, ids and time (its id is given
    /// by the database when it is stored).
    pub fn build_at(text: &str, sender: u32, receiver: u32, time: String) -> (c: Self)
        ensures
            c.id == 0,
            c.sender_id == sender,
            c.receiver_id == receiver,
            c.data@ == text@,
            c.time == time,
    {
        Self { id: 0, sender_id: sender, receiver_id: receiver, data: text.to_owned(), time }
    }

    /// A new chat message with the given text and ids, stamped with the current time.
    pub fn build(text: &str, sender: u32, receiver: u32) -> (c: Self)
        ensures
            c.id == 0,
            c.sender_id == sender,
            c.receiver_id == receiver,
            c.data@ == text@,
    {
        Self::build_at(text, sender, receiver, current_time())
    }

    /// A chat message the local user sends to the peer `rec`, stamped with the current time.
    pub fn chat_to_send(text: &str, rec: u32) -> (c: Self)
        ensures
            c.id == 0,
            c.sender_id == SELF_ID,
            c.receiver_id == rec,
            c.data@ == text@,
    {
        Self::build_at(text, SELF_ID, rec, current_time())
    }

    /// A chat message the local user received from the peer `sen`, stamped with the current
    /// time.
    pub fn chat_to_rec(text: &str, sen: u32) -> (c: Self)
        ensures
            c.id == 0,
            c.sender_id == sen,
            c.receiver_id == SELF_ID,
            c.data@ == text@,
    {
        Self::build_at(text, sen, SELF_ID, current_time())
    }
}

/// Whether the chats with a peer are looked up: the local user has no chats with itself.
pub fn lists_chats_of(peer_id: u8) -> (b: bool)
    ensures
        b == (peer_id as u32 != SELF_ID),
{
    peer_id as u32 != SELF_ID
}

/// Access to the chats of the local database; errors are given as their text.
pub trait ChatData {
    /// All stored chats.
    fn list_all_chat(&self) -> Result<Vec<Chat>, String>;

    /// The latest `chat_amount` chats sent to or received from the peer, newest first; none
    /// for the local user itself (see [`lists_chats_of`]).
    fn list_chat_from(&self, peer_id: u8, chat_amount: u8) -> Result<Vec<Chat>, String>;

    /// Stores a chat.
    fn insert_chat(&self, chat: Chat) -> Result<(), String>;

    /// Deletes the chat with this id.
    fn delete_chat(&self, idx: u32) -> Result<(), String>;
}

} // verus!
