//! Messages exchanged between peers, and their byte encoding on the wire.
use vstd::prelude::*;

use vstd::utf8::encode_utf8;

use crate::wire::{
    bytes_field, get_bytes, get_text, get_varint_u32, lemma_bytes_field_roundtrip,
    lemma_text_field_roundtrip, lemma_varint_roundtrip, parse_bytes_field, parse_text_field,
    parse_varint_u32, put_bytes, put_text, put_varint, text_field, varint,
};

verus! {

/// Whether a connected peer proved its identity.
pub enum PeerVerified {
    Verified,
    Invalid,
}

/// Whether a peer could be reached.
#[derive(Debug, Clone, Copy, PartialEq, Eq)]
pub enum PeerStatus {
    Connected,
    NotFound,
}

impl Default for PeerStatus {
    fn default() -> (s: Self)
        ensures
            s is NotFound,
    {
        PeerStatus::NotFound
    }
}

/// Messages passed between the daemon's internal tasks.
#[derive(Debug)]
#[non_exhaustive]
pub enum Internal {
    Msg(Msg),
}

/// A message between peers.
#[non_exhaustive]
#[derive(Debug, PartialEq, Eq, Clone)]
pub enum Msg {
    Text(String),
    PublicKey([u8; 32]),
    SignedAndPublicKey(Vec<u8>, [u8; 32]),
    Begin,
    End,
}

/// A message as plain values.
pub enum MsgView {
    Text(Seq<char>),
    PublicKey(Seq<u8>),
    SignedAndPublicKey(Seq<u8>, Seq<u8>),
    Begin,
    End,
}

impl View for Msg {
    type V = MsgView;

    open spec fn view(&self) -> MsgView {
        match self {
            Msg::Text(s) => MsgView::Text(s@),
            Msg::PublicKey(k) => MsgView::PublicKey(k@),
            Msg::SignedAndPublicKey(sig, k) => MsgView::SignedAndPublicKey(sig@, k@),
            Msg::Begin => MsgView::Begin,
            Msg::End => MsgView::End,
        }
    }
}

/// Messages whose keys are 32 bytes and whose text and signature lengths fit the encoding.
pub open spec fn msg_well_formed(m: MsgView) -> bool {
    match m {
        MsgView::Text(s) => encode_utf8(s).len() <= u64::MAX,
        MsgView::PublicKey(k) => k.len() == 32,
        MsgView::SignedAndPublicKey(sig, k) => sig.len() <= u64::MAX && k.len() == 32,
        _ => true,
    }
}

/// The encoding of a message: the variant's index as a variable-length integer, then its
/// fields (text and byte strings with their length, keys as their 32 bytes).
pub open spec fn msg_bytes(m: MsgView) -> Seq<u8> {
    match m {
        MsgView::Text(s) => varint(0) + text_field(s),
        MsgView::PublicKey(k) => varint(1) + k,
        MsgView::SignedAndPublicKey(sig, k) => varint(2) + bytes_field(sig) + k,
        MsgView::Begin => varint(3),
        MsgView::End => varint(4),
    }
}

/// The message at the start of `b`, with the number of bytes it takes.
pub open spec fn parse_msg(b: Seq<u8>) -> Option<(MsgView, nat)> {
    match parse_varint_u32(b) {
        Some((tag, k)) => {
            let r = b.skip(k as int);
            if tag == 0 {
                match parse_text_field(r) {
                    Some((s, j)) => Some((MsgView::Text(s), k + j)),
                    None => None,
                }
            } else if tag == 1 {
                if r.len() >= 32 {
                    Some((MsgView::PublicKey(r.take(32)), k + 32))
                } else {
                    None
                }
            } else if tag == 2 {
                match parse_bytes_field(r) {
                    Some((sig, j)) => if r.len() - j >= 32 {
                        Some((MsgView::SignedAndPublicKey(sig, r.subrange(j as int, (j + 32) as int)), k + j + 32))
                    } else {
                        None
                    },
                    None => None,
                }
            } else if tag == 3 {
                Some((MsgView::Begin, k))
            } else if tag == 4 {
                Some((MsgView::End, k))
            } else {
                None
            }
        },
        None => None,
    }
}

/// Messages are laid out as bincode's standard configuration lays out the enum: the variant's
/// index in declaration order (one byte, as every index is below 251), then the fields in
/// order, a text or a byte string as its length and its bytes, a key as its 32 bytes alone.
pub proof fn lemma_msg_layout(text: Seq<char>, sig: Seq<u8>, key: Seq<u8>)
    requires
        encode_utf8(text).len() <= u64::MAX,
        sig.len() <= u64::MAX,
    ensures
        msg_bytes(MsgView::Text(text)) == seq![0u8] + varint(encode_utf8(text).len() as u64) + encode_utf8(text),
        msg_bytes(MsgView::PublicKey(key)) == seq![1u8] + key,
        msg_bytes(MsgView::SignedAndPublicKey(sig, key)) == seq![2u8] + varint(sig.len() as u64) + sig + key,
        msg_bytes(MsgView::Begin) == seq![3u8],
        msg_bytes(MsgView::End) == seq![4u8],
{
    assert(msg_bytes(MsgView::Text(text)) =~= seq![0u8] + varint(encode_utf8(text).len() as u64) + encode_utf8(text));
    assert(msg_bytes(MsgView::SignedAndPublicKey(sig, key)) =~= seq![2u8] + varint(sig.len() as u64) + sig + key);
}

/// Bytes that start with no variant's index, or that are empty, hold no message; a public key
/// cut short is no message either.
pub proof fn lemma_msg_refuses_unknown(t: u8, rest: Seq<u8>)
    ensures
        5 <= t <= 250 ==> parse_msg(seq![t] + rest) is None,
        parse_msg(Seq::empty()) is None,
        rest.len() < 32 ==> parse_msg(seq![1u8] + rest) is None,
{
    assert((seq![t] + rest)[0] == t);
    assert((seq![1u8] + rest).skip(1) =~= rest);
}

/// Decoding the encoding of a message gives the message back, whatever follows it.
pub proof fn lemma_msg_roundtrip(m: MsgView, rest: Seq<u8>)
    requires
        msg_well_formed(m),
    ensures
        parse_msg(msg_bytes(m) + rest) == Some((m, msg_bytes(m).len())),
{
    match m {
        MsgView::Text(s) => {
            lemma_varint_roundtrip(0, text_field(s) + rest);
            assert(msg_bytes(m) + rest =~= varint(0) + (text_field(s) + rest));
            assert((msg_bytes(m) + rest).skip(1) =~= text_field(s) + rest);
            lemma_text_field_roundtrip(s, rest);
        },
        MsgView::PublicKey(k) => {
            lemma_varint_roundtrip(1, k + rest);
            assert(msg_bytes(m) + rest =~= varint(1) + (k + rest));
            assert((msg_bytes(m) + rest).skip(1).take(32) =~= k);
        },
        MsgView::SignedAndPublicKey(sig, k) => {
            let b = msg_bytes(m) + rest;
            lemma_varint_roundtrip(2, bytes_field(sig) + k + rest);
            assert(b =~= varint(2) + (bytes_field(sig) + k + rest));
            let r = b.skip(1);
            assert(r =~= bytes_field(sig) + (k + rest));
            lemma_bytes_field_roundtrip(sig, k + rest);
            let j = bytes_field(sig).len();
            assert(r.subrange(j as int, (j + 32) as int) =~= k);
        },
        MsgView::Begin => {
            lemma_varint_roundtrip(3, rest);
        },
        MsgView::End => {
            lemma_varint_roundtrip(4, rest);
        },
    }
}

impl Msg {
    /// A text message.
    pub fn from_text(value: &str) -> (m: Self)
        ensures
            m@ == MsgView::Text(value@),
    {
        Msg::Text(value.to_owned())
    }

    /// The message's encoding.
    pub fn to_vec(&self) -> (bytes: Vec<u8>)
        ensures
            bytes@ == msg_bytes(self@),
    {
        let mut out: Vec<u8> = Vec::new();
        match self {
            Msg::Text(s) => {
                put_varint(&mut out, 0);
                put_text(&mut out, s);
            },
            Msg::PublicKey(k) => {
                put_varint(&mut out, 1);
                out.extend_from_slice(k);
            },
            Msg::SignedAndPublicKey(sig, k) => {
                put_varint(&mut out, 2);
                put_bytes(&mut out, sig.as_slice());
                out.extend_from_slice(k);
            },
            Msg::Begin => {
                put_varint(&mut out, 3);
            },
            Msg::End => {
                put_varint(&mut out, 4);
            },
        }
        assert(out@ =~= msg_bytes(self@));
        out
    }

    /// The message at the start of `bytes`, with the number of bytes it takes; nothing when
    /// the bytes do not start with a message.
    pub fn decode(bytes: &[u8]) -> (r: Option<(Self, usize)>)
        ensures
            match parse_msg(bytes@) {
                Some((m, k)) => r matches Some((msg, n)) && msg@ == m && n == k,
                None => r is None,
            },
    {
        let (tag, pos) = match get_varint_u32(bytes, 0) {
            Some(r) => r,
            None => return None,
        };
        assert(bytes@.skip(0) =~= bytes@);
        let ghost r = bytes@.skip(pos as int);
        let len = bytes.len();
        if tag == 0 {
            match get_text(bytes, pos) {
                Some((s, end)) => {
                    assert(bytes@.skip(pos as int) =~= r);
                    Some((Msg::Text(s), end))
                },
                None => None,
            }
        } else if tag == 1 {
            if len - pos < 32 {
                return None;
            }
            let k = crate::crypto::aead::key_at(bytes, pos);
            assert(r.take(32) =~= bytes@.subrange(pos as int, pos + 32));
            Some((Msg::PublicKey(k), pos + 32))
        } else if tag == 2 {
            match get_bytes(bytes, pos) {
                Some((sig, end)) => {
                    if len - end < 32 {
                        return None;
                    }
                    let k = crate::crypto::aead::key_at(bytes, end);
                    assert(r.subrange(end - pos, end - pos + 32) =~= bytes@.subrange(end as int, end + 32));
                    Some((Msg::SignedAndPublicKey(sig, k), end + 32))
                },
                None => None,
            }
        } else if tag == 3 {
            Some((Msg::Begin, pos))
        } else if tag == 4 {
            Some((Msg::End, pos))
        } else {
            None
        }
    }

    /// The message `bytes` start with. The bytes must start with a message.
    pub fn from_bytes(bytes: &[u8]) -> (m: Self)
        requires
            parse_msg(bytes@) is Some,
        ensures
            m@ == parse_msg(bytes@).unwrap().0,
    {
        match Self::decode(bytes) {
            Some((m, _)) => m,
            None => {
                proof {
                    assert(false);
                }
                Msg::End
            },
        }
    }
}

} // verus!
