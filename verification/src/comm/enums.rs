//! The daemon's commands and responses, and their byte encoding.
use vstd::prelude::*;

use vstd::utf8::encode_utf8;

use crate::wire::{
    get_text, get_varint_u16, get_varint_u32, lemma_text_field_roundtrip, lemma_varint_roundtrip,
    parse_text_field, parse_varint_u16, parse_varint_u32, put_text, put_varint, text_field, varint,
};

verus! {

/// A command to the daemon.
#[derive(Debug, Clone, PartialEq, Eq)]
#[non_exhaustive]
pub enum IPCCmd {
    StartServer,
    Connect(String, u16),
    Tick,
}

/// A response from the daemon.
#[derive(Debug, Clone, PartialEq, Eq)]
#[non_exhaustive]
pub enum IPCRes {
    ServerStarted,
    Connected(String, u16),
    Error(String),
    Tock,
}

/// A command as plain values.
pub enum IPCCmdView {
    StartServer,
    Connect(Seq<char>, u16),
    Tick,
}

/// A response as plain values.
pub enum IPCResView {
    ServerStarted,
    Connected(Seq<char>, u16),
    Error(Seq<char>),
    Tock,
}

impl View for IPCCmd {
    type V = IPCCmdView;

    open spec fn view(&self) -> IPCCmdView {
        match self {
            IPCCmd::StartServer => IPCCmdView::StartServer,
            IPCCmd::Connect(addr, port) => IPCCmdView::Connect(addr@, *port),
            IPCCmd::Tick => IPCCmdView::Tick,
        }
    }
}

impl View for IPCRes {
    type V = IPCResView;

    open spec fn view(&self) -> IPCResView {
        match self {
            IPCRes::ServerStarted => IPCResView::ServerStarted,
            IPCRes::Connected(addr, port) => IPCResView::Connected(addr@, *port),
            IPCRes::Error(text) => IPCResView::Error(text@),
            IPCRes::Tock => IPCResView::Tock,
        }
    }
}

/// The encoding of a command: the variant's index, then its fields (text with its length,
/// the port as a variable-length integer).
pub open spec fn cmd_bytes(c: IPCCmdView) -> Seq<u8> {
    match c {
        IPCCmdView::StartServer => varint(0),
        IPCCmdView::Connect(addr, port) => varint(1) + text_field(addr) + varint(port as u64),
        IPCCmdView::Tick => varint(2),
    }
}

/// The encoding of a response.
pub open spec fn res_bytes(r: IPCResView) -> Seq<u8> {
    match r {
        IPCResView::ServerStarted => varint(0),
        IPCResView::Connected(addr, port) => varint(1) + text_field(addr) + varint(port as u64),
        IPCResView::Error(text) => varint(2) + text_field(text),
        IPCResView::Tock => varint(3),
    }
}

/// Text followed by a port, at the start of `b`.
pub open spec fn parse_text_port(b: Seq<u8>) -> Option<(Seq<char>, u16, nat)> {
    match parse_text_field(b) {
        Some((s, j)) => match parse_varint_u16(b.skip(j as int)) {
            Some((port, i)) => Some((s, port, j + i)),
            None => None,
        },
        None => None,
    }
}

/// The command at the start of `b`, with the number of bytes it takes.
pub open spec fn parse_cmd(b: Seq<u8>) -> Option<(IPCCmdView, nat)> {
    match parse_varint_u32(b) {
        Some((tag, k)) => if tag == 0 {
            Some((IPCCmdView::StartServer, k))
        } else if tag == 1 {
            match parse_text_port(b.skip(k as int)) {
                Some((addr, port, j)) => Some((IPCCmdView::Connect(addr, port), k + j)),
                None => None,
            }
        } else if tag == 2 {
            Some((IPCCmdView::Tick, k))
        } else {
            None
        },
        None => None,
    }
}

/// The response at the start of `b`, with the number of bytes it takes.
pub open spec fn parse_res(b: Seq<u8>) -> Option<(IPCResView, nat)> {
    match parse_varint_u32(b) {
        Some((tag, k)) => if tag == 0 {
            Some((IPCResView::ServerStarted, k))
        } else if tag == 1 {
            match parse_text_port(b.skip(k as int)) {
                Some((addr, port, j)) => Some((IPCResView::Connected(addr, port), k + j)),
                None => None,
            }
        } else if tag == 2 {
            match parse_text_field(b.skip(k as int)) {
                Some((text, j)) => Some((IPCResView::Error(text), k + j)),
                None => None,
            }
        } else if tag == 3 {
            Some((IPCResView::Tock, k))
        } else {
            None
        },
        None => None,
    }
}

/// Values with a byte encoding.
pub trait WireEncode: Sized {
    /// The encoding of the value.
    spec fn wire_bytes(&self) -> Seq<u8>;

    /// Appends the encoding of the value to `out`.
    fn encode_to(&self, out: &mut Vec<u8>)
        ensures
            final(out)@ == old(out)@ + self.wire_bytes(),
    ;
}

fn put_text_port(out: &mut Vec<u8>, text: &String, port: u16)
    ensures
        final(out)@ == old(out)@ + text_field(text@) + varint(port as u64),
{
    put_text(out, text);
    put_varint(out, port as u64);
}

impl WireEncode for IPCCmd {
    open spec fn wire_bytes(&self) -> Seq<u8> {
        cmd_bytes(self@)
    }

    fn encode_to(&self, out: &mut Vec<u8>) {
        match self {
            IPCCmd::StartServer => put_varint(out, 0),
            IPCCmd::Connect(addr, port) => {
                put_varint(out, 1);
                put_text_port(out, addr, *port);
            },
            IPCCmd::Tick => put_varint(out, 2),
        }
        assert(final(out)@ =~= old(out)@ + self.wire_bytes());
    }
}

impl WireEncode for IPCRes {
    open spec fn wire_bytes(&self) -> Seq<u8> {
        res_bytes(self@)
    }

    fn encode_to(&self, out: &mut Vec<u8>) {
        match self {
            IPCRes::ServerStarted => put_varint(out, 0),
            IPCRes::Connected(addr, port) => {
                put_varint(out, 1);
                put_text_port(out, addr, *port);
            },
            IPCRes::Error(text) => {
                put_varint(out, 2);
                put_text(out, text);
            },
            IPCRes::Tock => put_varint(out, 3),
        }
        assert(final(out)@ =~= old(out)@ + self.wire_bytes());
    }
}

/// The encoding of a command or a response.
pub fn encode<T: WireEncode>(msg: T) -> (bytes: Vec<u8>)
    ensures
        bytes@ == msg.wire_bytes(),
{
    let mut out: Vec<u8> = Vec::new();
    msg.encode_to(&mut out);
    assert(out@ =~= msg.wire_bytes());
    out
}

fn get_text_port(b: &[u8], pos: usize) -> (r: Option<(String, u16, usize)>)
    requires
        pos <= b@.len(),
    ensures
        match parse_text_port(b@.skip(pos as int)) {
            Some((s, port, k)) => r matches Some((t, p, end)) && t@ == s && p == port && end == pos + k,
            None => r is None,
        },
{
    let (text, mid) = match get_text(b, pos) {
        Some(r) => r,
        None => return None,
    };
    let ghost t = b@.skip(pos as int);
    let ghost j = parse_text_field(t).unwrap().1;
    assert(mid == pos + j);
    assert(t.skip(j as int) =~= b@.skip(mid as int));
    match get_varint_u16(b, mid) {
        Some((port, end)) => {
            assert(parse_text_port(t) == Some((text@, port, (j + (end - mid)) as nat)));
            Some((text, port, end))
        },
        None => None,
    }
}

impl IPCCmd {
    /// The command at the start of `bytes`, with the number of bytes it takes; nothing when
    /// the bytes do not start with a command.
    pub fn decode(bytes: &[u8]) -> (r: Option<(Self, usize)>)
        ensures
            match parse_cmd(bytes@) {
                Some((c, k)) => r matches Some((cmd, n)) && cmd@ == c && n == k,
                None => r is None,
            },
    {
        assert(bytes@.skip(0) =~= bytes@);
        let (tag, pos) = match get_varint_u32(bytes, 0) {
            Some(r) => r,
            None => return None,
        };
        if tag == 0 {
            Some((IPCCmd::StartServer, pos))
        } else if tag == 1 {
            match get_text_port(bytes, pos) {
                Some((addr, port, end)) => Some((IPCCmd::Connect(addr, port), end)),
                None => None,
            }
        } else if tag == 2 {
            Some((IPCCmd::Tick, pos))
        } else {
            None
        }
    }
}

impl IPCRes {
    /// The response at the start of `bytes`, with the number of bytes it takes; nothing when
    /// the bytes do not start with a response.
    pub fn decode(bytes: &[u8]) -> (r: Option<(Self, usize)>)
        ensures
            match parse_res(bytes@) {
                Some((c, k)) => r matches Some((res, n)) && res@ == c && n == k,
                None => r is None,
            },
    {
        assert(bytes@.skip(0) =~= bytes@);
        let (tag, pos) = match get_varint_u32(bytes, 0) {
            Some(r) => r,
            None => return None,
        };
        if tag == 0 {
            Some((IPCRes::ServerStarted, pos))
        } else if tag == 1 {
            match get_text_port(bytes, pos) {
                Some((addr, port, end)) => Some((IPCRes::Connected(addr, port), end)),
                None => None,
            }
        } else if tag == 2 {
            match get_text(bytes, pos) {
                Some((text, end)) => Some((IPCRes::Error(text), end)),
                None => None,
            }
        } else if tag == 3 {
            Some((IPCRes::Tock, pos))
        } else {
            None
        }
    }
}

proof fn lemma_text_port_roundtrip(s: Seq<char>, port: u16, rest: Seq<u8>)
    requires
        encode_utf8(s).len() <= u64::MAX,
    ensures
        parse_text_port(text_field(s) + varint(port as u64) + rest) == Some(
            (s, port, (text_field(s) + varint(port as u64)).len()),
        ),
{
    let b = text_field(s) + varint(port as u64) + rest;
    assert(b =~= text_field(s) + (varint(port as u64) + rest));
    lemma_text_field_roundtrip(s, varint(port as u64) + rest);
    assert(b.skip(text_field(s).len() as int) =~= varint(port as u64) + rest);
    lemma_varint_roundtrip(port as u64, rest);
}

/// Decoding the encoding of a command gives the command back, whatever follows it.
pub proof fn lemma_cmd_roundtrip(c: IPCCmdView, rest: Seq<u8>)
    requires
        c matches IPCCmdView::Connect(addr, _) ==> encode_utf8(addr).len() <= u64::MAX,
    ensures
        parse_cmd(cmd_bytes(c) + rest) == Some((c, cmd_bytes(c).len())),
{
    match c {
        IPCCmdView::Connect(addr, port) => {
            let tail = text_field(addr) + varint(port as u64) + rest;
            lemma_varint_roundtrip(1, tail);
            assert(cmd_bytes(c) + rest =~= varint(1) + tail);
            assert((cmd_bytes(c) + rest).skip(1) =~= tail);
            lemma_text_port_roundtrip(addr, port, rest);
        },
        IPCCmdView::StartServer => lemma_varint_roundtrip(0, rest),
        IPCCmdView::Tick => lemma_varint_roundtrip(2, rest),
    }
}

/// Decoding the encoding of a response gives the response back, whatever follows it.
pub proof fn lemma_res_roundtrip(r: IPCResView, rest: Seq<u8>)
    requires
        r matches IPCResView::Connected(addr, _) ==> encode_utf8(addr).len() <= u64::MAX,
        r matches IPCResView::Error(text) ==> encode_utf8(text).len() <= u64::MAX,
    ensures
        parse_res(res_bytes(r) + rest) == Some((r, res_bytes(r).len())),
{
    match r {
        IPCResView::Connected(addr, port) => {
            let tail = text_field(addr) + varint(port as u64) + rest;
            lemma_varint_roundtrip(1, tail);
            assert(res_bytes(r) + rest =~= varint(1) + tail);
            assert((res_bytes(r) + rest).skip(1) =~= tail);
            lemma_text_port_roundtrip(addr, port, rest);
        },
        IPCResView::Error(text) => {
            let tail = text_field(text) + rest;
            lemma_varint_roundtrip(2, tail);
            assert(res_bytes(r) + rest =~= varint(2) + tail);
            assert((res_bytes(r) + rest).skip(1) =~= tail);
            lemma_text_field_roundtrip(text, rest);
        },
        IPCResView::ServerStarted => lemma_varint_roundtrip(0, rest),
        IPCResView::Tock => lemma_varint_roundtrip(3, rest),
    }
}

/// A `Connected` response is laid out field by field in declaration order, as bincode's
/// standard configuration lays it out: the variant's index 1, the address as its UTF-8 byte
/// length and bytes, then the port. That is the layout of the `Connect` command with the same
/// fields, and decoding such bytes reads the address first and the port after it.
pub proof fn lemma_connected_layout(addr: Seq<char>, port: u16, rest: Seq<u8>)
    requires
        encode_utf8(addr).len() <= u64::MAX,
    ensures
        res_bytes(IPCResView::Connected(addr, port)) == seq![1u8] + varint(encode_utf8(addr).len() as u64)
            + encode_utf8(addr) + varint(port as u64),
        res_bytes(IPCResView::Connected(addr, port)) == cmd_bytes(IPCCmdView::Connect(addr, port)),
        parse_res(seq![1u8] + varint(encode_utf8(addr).len() as u64) + encode_utf8(addr) + varint(port as u64) + rest)
            == Some((IPCResView::Connected(addr, port), res_bytes(IPCResView::Connected(addr, port)).len())),
{
    let r = IPCResView::Connected(addr, port);
    assert(res_bytes(r) =~= seq![1u8] + varint(encode_utf8(addr).len() as u64) + encode_utf8(addr) + varint(port as u64));
    lemma_res_roundtrip(r, rest);
}

/// Commands and responses are laid out as bincode's standard configuration lays out the enums:
/// the variant's index in declaration order as one byte, then the fields in order, a text as its
/// UTF-8 byte length and bytes, a port as a variable-length integer.
pub proof fn lemma_ipc_layout(text: Seq<char>)
    requires
        encode_utf8(text).len() <= u64::MAX,
    ensures
        cmd_bytes(IPCCmdView::StartServer) == seq![0u8],
        cmd_bytes(IPCCmdView::Tick) == seq![2u8],
        res_bytes(IPCResView::ServerStarted) == seq![0u8],
        res_bytes(IPCResView::Error(text)) == seq![2u8] + varint(encode_utf8(text).len() as u64) + encode_utf8(text),
        res_bytes(IPCResView::Tock) == seq![3u8],
{
    assert(res_bytes(IPCResView::Error(text)) =~= seq![2u8] + varint(encode_utf8(text).len() as u64) + encode_utf8(text));
}

/// Bytes that start with no variant's index, or that are empty, hold no command and no
/// response.
pub proof fn lemma_ipc_refuses_unknown(t: u8, rest: Seq<u8>)
    ensures
        3 <= t <= 250 ==> parse_cmd(seq![t] + rest) is None,
        4 <= t <= 250 ==> parse_res(seq![t] + rest) is None,
        parse_cmd(Seq::empty()) is None,
        parse_res(Seq::empty()) is None,
{
    assert((seq![t] + rest)[0] == t);
}

} // verus!
