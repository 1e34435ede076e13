//! The byte encoding of the protocol's messages: unsigned integers as variable-length
//! little-endian integers (one byte up to 250; otherwise a marker byte 251, 252 or 253
//! followed by 2, 4 or 8 little-endian bytes), byte strings and text as their length
//! followed by their bytes, text in UTF-8.
use vstd::prelude::*;

use vstd::utf8::{decode_utf8, encode_utf8, encode_utf8_decode_utf8, encode_utf8_valid_utf8, valid_utf8};

verus! {

// ---------------------------------------------------------------------------
// Little-endian fixed-width integers
// ---------------------------------------------------------------------------

pub open spec fn le_u16(x: u16) -> Seq<u8> {
    seq![x as u8, (x >> 8) as u8]
}

pub open spec fn le_u32(x: u32) -> Seq<u8> {
    seq![x as u8, (x >> 8) as u8, (x >> 16) as u8, (x >> 24) as u8]
}

pub open spec fn le_u64(x: u64) -> Seq<u8> {
    seq![
        x as u8, (x >> 8) as u8, (x >> 16) as u8, (x >> 24) as u8,
        (x >> 32) as u8, (x >> 40) as u8, (x >> 48) as u8, (x >> 56) as u8,
    ]
}

pub open spec fn u16_of_le(s: Seq<u8>) -> u16 {
    (s[0] as u16) | ((s[1] as u16) << 8)
}

pub open spec fn u32_of_le(s: Seq<u8>) -> u32 {
    (s[0] as u32) | ((s[1] as u32) << 8) | ((s[2] as u32) << 16) | ((s[3] as u32) << 24)
}

pub open spec fn u64_of_le(s: Seq<u8>) -> u64 {
    (s[0] as u64) | ((s[1] as u64) << 8) | ((s[2] as u64) << 16) | ((s[3] as u64) << 24)
        | ((s[4] as u64) << 32) | ((s[5] as u64) << 40) | ((s[6] as u64) << 48) | ((s[7] as u64)
        << 56)
}

pub proof fn lemma_le_u16_roundtrip(x: u16)
    ensures
        u16_of_le(le_u16(x)) == x,
{
    let (b0, b1) = (x as u8, (x >> 8) as u8);
    assert((b0 as u16) | ((b1 as u16) << 8) == x) by (bit_vector)
        requires
            b0 == x as u8,
            b1 == (x >> 8) as u8,
    ;
}

pub proof fn lemma_le_u32_roundtrip(x: u32)
    ensures
        u32_of_le(le_u32(x)) == x,
{
    let (b0, b1, b2, b3) = (x as u8, (x >> 8) as u8, (x >> 16) as u8, (x >> 24) as u8);
    assert((b0 as u32) | ((b1 as u32) << 8) | ((b2 as u32) << 16) | ((b3 as u32) << 24) == x)
        by (bit_vector)
        requires
            b0 == x as u8,
            b1 == (x >> 8) as u8,
            b2 == (x >> 16) as u8,
            b3 == (x >> 24) as u8,
    ;
}

pub proof fn lemma_le_u64_roundtrip(x: u64)
    ensures
        u64_of_le(le_u64(x)) == x,
{
    let (b0, b1, b2, b3) = (x as u8, (x >> 8) as u8, (x >> 16) as u8, (x >> 24) as u8);
    let (b4, b5, b6, b7) = ((x >> 32) as u8, (x >> 40) as u8, (x >> 48) as u8, (x >> 56) as u8);
    assert((b0 as u64) | ((b1 as u64) << 8) | ((b2 as u64) << 16) | ((b3 as u64) << 24) | ((b4 as u64)
        << 32) | ((b5 as u64) << 40) | ((b6 as u64) << 48) | ((b7 as u64) << 56) == x)
        by (bit_vector)
        requires
            b0 == x as u8,
            b1 == (x >> 8) as u8,
            b2 == (x >> 16) as u8,
            b3 == (x >> 24) as u8,
            b4 == (x >> 32) as u8,
            b5 == (x >> 40) as u8,
            b6 == (x >> 48) as u8,
            b7 == (x >> 56) as u8,
    ;
}

// ---------------------------------------------------------------------------
// Variable-length integers
// ---------------------------------------------------------------------------

/// The shortest variable-length encoding of `v`.
pub open spec fn varint(v: u64) -> Seq<u8> {
    if v <= 250 {
        seq![v as u8]
    } else if v <= 0xffff {
        seq![251u8] + le_u16(v as u16)
    } else if v <= 0xffff_ffff {
        seq![252u8] + le_u32(v as u32)
    } else {
        seq![253u8] + le_u64(v)
    }
}

/// A variable-length integer of at most 64 bits at the start of `b`, with the number of
/// bytes it takes. Every width is accepted, the shortest or not.
pub open spec fn parse_varint_u64(b: Seq<u8>) -> Option<(u64, nat)> {
    if b.len() == 0 {
        None
    } else if b[0] <= 250 {
        Some((b[0] as u64, 1))
    } else if b[0] == 251 {
        if b.len() >= 3 { Some((u16_of_le(b.subrange(1, 3)) as u64, 3)) } else { None }
    } else if b[0] == 252 {
        if b.len() >= 5 { Some((u32_of_le(b.subrange(1, 5)) as u64, 5)) } else { None }
    } else if b[0] == 253 {
        if b.len() >= 9 { Some((u64_of_le(b.subrange(1, 9)), 9)) } else { None }
    } else {
        None
    }
}

/// A variable-length integer of at most 32 bits at the start of `b`.
pub open spec fn parse_varint_u32(b: Seq<u8>) -> Option<(u32, nat)> {
    if b.len() == 0 {
        None
    } else if b[0] <= 250 {
        Some((b[0] as u32, 1))
    } else if b[0] == 251 {
        if b.len() >= 3 { Some((u16_of_le(b.subrange(1, 3)) as u32, 3)) } else { None }
    } else if b[0] == 252 {
        if b.len() >= 5 { Some((u32_of_le(b.subrange(1, 5)), 5)) } else { None }
    } else {
        None
    }
}

/// A variable-length integer of at most 16 bits at the start of `b`.
pub open spec fn parse_varint_u16(b: Seq<u8>) -> Option<(u16, nat)> {
    if b.len() == 0 {
        None
    } else if b[0] <= 250 {
        Some((b[0] as u16, 1))
    } else if b[0] == 251 {
        if b.len() >= 3 { Some((u16_of_le(b.subrange(1, 3)), 3)) } else { None }
    } else {
        None
    }
}

/// Decoding the encoding of a number gives it back, whatever follows it.
pub proof fn lemma_varint_roundtrip(v: u64, rest: Seq<u8>)
    ensures
        parse_varint_u64(varint(v) + rest) == Some((v, varint(v).len())),
        v <= u32::MAX ==> parse_varint_u32(varint(v) + rest) == Some((v as u32, varint(v).len())),
        v <= u16::MAX ==> parse_varint_u16(varint(v) + rest) == Some((v as u16, varint(v).len())),
{
    let b = varint(v) + rest;
    if v <= 250 {
    } else if v <= 0xffff {
        assert(b.subrange(1, 3) =~= le_u16(v as u16));
        lemma_le_u16_roundtrip(v as u16);
    } else if v <= 0xffff_ffff {
        assert(b.subrange(1, 5) =~= le_u32(v as u32));
        lemma_le_u32_roundtrip(v as u32);
    } else {
        assert(b.subrange(1, 9) =~= le_u64(v));
        lemma_le_u64_roundtrip(v);
    }
}

/// Appends the encoding of `v` to `out`.
pub fn put_varint(out: &mut Vec<u8>, v: u64)
    ensures
        final(out)@ == old(out)@ + varint(v),
{
    if v <= 250 {
        out.push(v as u8);
    } else if v <= 0xffff {
        let x = v as u16;
        out.push(251);
        out.push(x as u8);
        out.push((x >> 8) as u8);
    } else if v <= 0xffff_ffff {
        let x = v as u32;
        out.push(252);
        out.push(x as u8);
        out.push((x >> 8) as u8);
        out.push((x >> 16) as u8);
        out.push((x >> 24) as u8);
    } else {
        out.push(253);
        out.push(v as u8);
        out.push((v >> 8) as u8);
        out.push((v >> 16) as u8);
        out.push((v >> 24) as u8);
        out.push((v >> 32) as u8);
        out.push((v >> 40) as u8);
        out.push((v >> 48) as u8);
        out.push((v >> 56) as u8);
    }
    assert(final(out)@ =~= old(out)@ + varint(v));
}

/// Reads a variable-length integer of at most 64 bits at `pos`: its value and the position
/// after it.
pub fn get_varint_u64(b: &[u8], pos: usize) -> (r: Option<(u64, usize)>)
    requires
        pos <= b@.len(),
    ensures
        match parse_varint_u64(b@.skip(pos as int)) {
            Some((v, k)) => r matches Some((rv, p)) && rv == v && p == pos + k,
            None => r is None,
        },
{
    let ghost t = b@.skip(pos as int);
    let n = b.len();
    if pos >= n {
        return None;
    }
    let tag = b[pos];
    assert(t[0] == tag);
    if tag <= 250 {
        Some((tag as u64, pos + 1))
    } else if tag == 251 {
        if n - pos < 3 {
            return None;
        }
        assert(t.subrange(1, 3) =~= b@.subrange(pos + 1, pos + 3));
        let x: u16 = (b[pos + 1] as u16) | ((b[pos + 2] as u16) << 8);
        Some((x as u64, pos + 3))
    } else if tag == 252 {
        if n - pos < 5 {
            return None;
        }
        assert(t.subrange(1, 5) =~= b@.subrange(pos + 1, pos + 5));
        let x: u32 = (b[pos + 1] as u32) | ((b[pos + 2] as u32) << 8) | ((b[pos + 3] as u32) << 16)
            | ((b[pos + 4] as u32) << 24);
        Some((x as u64, pos + 5))
    } else if tag == 253 {
        if n - pos < 9 {
            return None;
        }
        assert(t.subrange(1, 9) =~= b@.subrange(pos + 1, pos + 9));
        let x: u64 = (b[pos + 1] as u64) | ((b[pos + 2] as u64) << 8) | ((b[pos + 3] as u64) << 16)
            | ((b[pos + 4] as u64) << 24) | ((b[pos + 5] as u64) << 32) | ((b[pos + 6] as u64)
            << 40) | ((b[pos + 7] as u64) << 48) | ((b[pos + 8] as u64) << 56);
        Some((x, pos + 9))
    } else {
        None
    }
}

/// Reads a variable-length integer of at most 32 bits at `pos`.
pub fn get_varint_u32(b: &[u8], pos: usize) -> (r: Option<(u32, usize)>)
    requires
        pos <= b@.len(),
    ensures
        match parse_varint_u32(b@.skip(pos as int)) {
            Some((v, k)) => r matches Some((rv, p)) && rv == v && p == pos + k,
            None => r is None,
        },
{
    let ghost t = b@.skip(pos as int);
    let n = b.len();
    if pos >= n {
        return None;
    }
    let tag = b[pos];
    assert(t[0] == tag);
    if tag <= 250 {
        Some((tag as u32, pos + 1))
    } else if tag == 251 {
        if n - pos < 3 {
            return None;
        }
        assert(t.subrange(1, 3) =~= b@.subrange(pos + 1, pos + 3));
        let x: u16 = (b[pos + 1] as u16) | ((b[pos + 2] as u16) << 8);
        Some((x as u32, pos + 3))
    } else if tag == 252 {
        if n - pos < 5 {
            return None;
        }
        assert(t.subrange(1, 5) =~= b@.subrange(pos + 1, pos + 5));
        let x: u32 = (b[pos + 1] as u32) | ((b[pos + 2] as u32) << 8) | ((b[pos + 3] as u32) << 16)
            | ((b[pos + 4] as u32) << 24);
        Some((x, pos + 5))
    } else {
        None
    }
}

/// Reads a variable-length integer of at most 16 bits at `pos`.
pub fn get_varint_u16(b: &[u8], pos: usize) -> (r: Option<(u16, usize)>)
    requires
        pos <= b@.len(),
    ensures
        match parse_varint_u16(b@.skip(pos as int)) {
            Some((v, k)) => r matches Some((rv, p)) && rv == v && p == pos + k,
            None => r is None,
        },
{
    let ghost t = b@.skip(pos as int);
    let n = b.len();
    if pos >= n {
        return None;
    }
    let tag = b[pos];
    assert(t[0] == tag);
    if tag <= 250 {
        Some((tag as u16, pos + 1))
    } else if tag == 251 {
        if n - pos < 3 {
            return None;
        }
        assert(t.subrange(1, 3) =~= b@.subrange(pos + 1, pos + 3));
        let x: u16 = (b[pos + 1] as u16) | ((b[pos + 2] as u16) << 8);
        Some((x, pos + 3))
    } else {
        None
    }
}


// ---------------------------------------------------------------------------
// Byte strings and text
// ---------------------------------------------------------------------------

/// A byte string: its length, then its bytes.
pub open spec fn bytes_field(b: Seq<u8>) -> Seq<u8> {
    varint(b.len() as u64) + b
}

/// A byte string at the start of `b`, with the number of bytes it takes.
pub open spec fn parse_bytes_field(b: Seq<u8>) -> Option<(Seq<u8>, nat)> {
    match parse_varint_u64(b) {
        Some((n, k)) => if n <= b.len() - k {
            Some((b.subrange(k as int, k + n), (k + n) as nat))
        } else {
            None
        },
        None => None,
    }
}

/// Text: its UTF-8 encoding as a byte string.
pub open spec fn text_field(s: Seq<char>) -> Seq<u8> {
    bytes_field(encode_utf8(s))
}

/// Text at the start of `b`: a byte string that is valid UTF-8.
pub open spec fn parse_text_field(b: Seq<u8>) -> Option<(Seq<char>, nat)> {
    match parse_bytes_field(b) {
        Some((body, k)) => if valid_utf8(body) {
            Some((decode_utf8(body), k))
        } else {
            None
        },
        None => None,
    }
}

/// Decoding an encoded byte string gives it back, whatever follows it.
pub proof fn lemma_bytes_field_roundtrip(x: Seq<u8>, rest: Seq<u8>)
    requires
        x.len() <= u64::MAX,
    ensures
        parse_bytes_field(bytes_field(x) + rest) == Some((x, bytes_field(x).len())),
{
    let v = varint(x.len() as u64);
    lemma_varint_roundtrip(x.len() as u64, x + rest);
    assert(bytes_field(x) + rest =~= v + (x + rest));
    assert((bytes_field(x) + rest).subrange(v.len() as int, (v.len() + x.len()) as int) =~= x);
}

/// Decoding encoded text gives it back, whatever follows it.
pub proof fn lemma_text_field_roundtrip(s: Seq<char>, rest: Seq<u8>)
    requires
        encode_utf8(s).len() <= u64::MAX,
    ensures
        parse_text_field(text_field(s) + rest) == Some((s, text_field(s).len())),
{
    lemma_bytes_field_roundtrip(encode_utf8(s), rest);
    encode_utf8_valid_utf8(s);
    encode_utf8_decode_utf8(s);
}

/// Calls `std::str::from_utf8` and copies the text into a `String`: the text the bytes
/// encode when they are valid UTF-8, nothing otherwise.
#[verifier::external_body]
fn utf8_to_string(bytes: &[u8]) -> (s: Option<String>)
    ensures
        s is Some <==> valid_utf8(bytes@),
        s matches Some(s) ==> s@ == decode_utf8(bytes@),
{
    match std::str::from_utf8(bytes) {
        Ok(s) => Some(s.to_owned()),
        Err(_) => None,
    }
}

/// Appends a byte string to `out`.
pub fn put_bytes(out: &mut Vec<u8>, b: &[u8])
    ensures
        final(out)@ == old(out)@ + bytes_field(b@),
{
    put_varint(out, b.len() as u64);
    out.extend_from_slice(b);
    assert(final(out)@ =~= old(out)@ + bytes_field(b@));
}

/// Appends text to `out`.
pub fn put_text(out: &mut Vec<u8>, s: &String)
    ensures
        final(out)@ == old(out)@ + text_field(s@),
{
    put_bytes(out, s.as_str().as_bytes());
}

/// Reads a byte string at `pos`: its bytes and the position after it.
pub fn get_bytes(b: &[u8], pos: usize) -> (r: Option<(Vec<u8>, usize)>)
    requires
        pos <= b@.len(),
    ensures
        match parse_bytes_field(b@.skip(pos as int)) {
            Some((x, k)) => r matches Some((v, p)) && v@ == x && p == pos + k,
            None => r is None,
        },
{
    let ghost t = b@.skip(pos as int);
    let (n, start) = match get_varint_u64(b, pos) {
        Some(r) => r,
        None => return None,
    };
    let len = b.len();
    if n > (len - start) as u64 {
        return None;
    }
    let end = start + n as usize;
    let mut v: Vec<u8> = Vec::new();
    v.extend_from_slice(&b[start..end]);
    assert(v@ =~= t.subrange(start - pos, end - pos));
    Some((v, end))
}

/// Reads text at `pos`: the text and the position after it.
pub fn get_text(b: &[u8], pos: usize) -> (r: Option<(String, usize)>)
    requires
        pos <= b@.len(),
    ensures
        match parse_text_field(b@.skip(pos as int)) {
            Some((x, k)) => r matches Some((s, p)) && s@ == x && p == pos + k,
            None => r is None,
        },
{
    let (body, end) = match get_bytes(b, pos) {
        Some(r) => r,
        None => return None,
    };
    match utf8_to_string(body.as_slice()) {
        Some(s) => Some((s, end)),
        None => None,
    }
}

} // verus!
