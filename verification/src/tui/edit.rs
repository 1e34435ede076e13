//! Editing a line of text at a cursor, and moving a selection through a list.
//!
//! A cursor is a byte position in the text's UTF-8 encoding; it moves by one per key press.
use vstd::prelude::*;

use vstd::utf8::{
    decode_utf8, decode_utf8_encode_utf8, encode_utf8, encode_utf8_decode_utf8, encode_utf8_valid_utf8,
    encode_scalar, is_char_boundary, valid_utf8, valid_utf8_concat, valid_utf8_split,
};

verus! {

/// The UTF-8 bytes of a text.
pub open spec fn text_bytes(s: Seq<char>) -> Seq<u8> {
    encode_utf8(s)
}

/// The text after inserting `ch` at byte position `idx`.
pub open spec fn text_inserted(s: Seq<char>, idx: int, ch: char) -> Seq<char> {
    decode_utf8(text_bytes(s).take(idx) + encode_utf8(seq![ch]) + text_bytes(s).skip(idx))
}

/// The text after removing the character that starts at byte position `idx`.
pub open spec fn text_removed(s: Seq<char>, idx: int) -> Seq<char> {
    let c = decode_utf8(text_bytes(s).skip(idx))[0];
    decode_utf8(text_bytes(s).take(idx) + text_bytes(s).skip(idx + encode_utf8(seq![c]).len()))
}

/// Inserting a character at a character boundary puts its encoding there.
pub proof fn lemma_inserted_bytes(s: Seq<char>, idx: int, ch: char)
    requires
        is_char_boundary(text_bytes(s), idx),
    ensures
        text_bytes(text_inserted(s, idx, ch)) == text_bytes(s).take(idx) + encode_utf8(seq![ch])
            + text_bytes(s).skip(idx),
        encode_utf8(seq![ch]).len() >= 1,
{
    let b = text_bytes(s);
    encode_utf8_valid_utf8(s);
    valid_utf8_split(b, idx);
    assert(b.take(idx) == b.subrange(0, idx));
    assert(b.skip(idx) == b.subrange(idx, b.len() as int));
    encode_utf8_valid_utf8(seq![ch]);
    valid_utf8_concat(b.take(idx), encode_utf8(seq![ch]));
    valid_utf8_concat(b.take(idx) + encode_utf8(seq![ch]), b.skip(idx));
    decode_utf8_encode_utf8(b.take(idx) + encode_utf8(seq![ch]) + b.skip(idx));
    assert(seq![ch].drop_first() =~= Seq::<char>::empty());
}

/// Removing the character at a character boundary before the end removes its encoding, which
/// lies within the text.
pub proof fn lemma_removed_bytes(s: Seq<char>, idx: int)
    requires
        is_char_boundary(text_bytes(s), idx),
        idx < text_bytes(s).len(),
    ensures
        ({
            let c = decode_utf8(text_bytes(s).skip(idx))[0];
            let n = encode_utf8(seq![c]).len();
            &&& 1 <= n
            &&& idx + n <= text_bytes(s).len()
            &&& text_bytes(s).subrange(idx, idx + n) == encode_utf8(seq![c])
            &&& text_bytes(text_removed(s, idx)) == text_bytes(s).take(idx) + text_bytes(s).skip(idx + n)
        }),
{
    let b = text_bytes(s);
    encode_utf8_valid_utf8(s);
    valid_utf8_split(b, idx);
    assert(b.take(idx) == b.subrange(0, idx));
    let rest = b.skip(idx);
    assert(rest == b.subrange(idx, b.len() as int));
    let chars = decode_utf8(rest);
    decode_utf8_encode_utf8(rest);
    assert(chars.len() > 0);
    let c = chars[0];
    let n = encode_utf8(seq![c]).len();
    assert(seq![c].drop_first() =~= Seq::<char>::empty());
    assert(encode_utf8(Seq::<char>::empty()) =~= Seq::<u8>::empty());
    assert(encode_utf8(seq![c]) =~= encode_scalar(c as u32));
    assert(encode_utf8(chars) == encode_scalar(c as u32) + encode_utf8(chars.drop_first()));
    let tail = encode_utf8(chars.drop_first());
    assert(rest =~= encode_utf8(seq![c]) + tail);
    assert((encode_utf8(seq![c]) + tail).skip(n as int) =~= tail);
    assert(rest.skip(n as int) =~= tail);
    assert(b.subrange(idx, idx + n) =~= rest.take(n as int));
    assert(rest.take(n as int) =~= encode_utf8(seq![c]));
    assert(b.skip(idx + n) =~= rest.skip(n as int));
    encode_utf8_valid_utf8(chars.drop_first());
    valid_utf8_concat(b.take(idx), tail);
    decode_utf8_encode_utf8(b.take(idx) + tail);
}

/// Calls `String::insert(idx, ch)`, which panics unless `idx` is a character boundary:
/// the text's bytes with the encoding of `ch` inserted at `idx`.
#[verifier::external_body]
fn string_insert(s: &mut String, idx: usize, ch: char)
    requires
        is_char_boundary(text_bytes(old(s)@), idx as int),
    ensures
        text_bytes(final(s)@) == text_bytes(old(s)@).take(idx as int) + encode_utf8(seq![ch])
            + text_bytes(old(s)@).skip(idx as int),
{
    s.insert(idx, ch)
}

/// Calls `String::remove(idx)`, which panics unless `idx` is a character boundary before
/// the end: removes and returns the character whose encoding starts at `idx`.
#[verifier::external_body]
fn string_remove(s: &mut String, idx: usize) -> (c: char)
    requires
        is_char_boundary(text_bytes(old(s)@), idx as int),
        idx < text_bytes(old(s)@).len(),
    ensures
        c == decode_utf8(text_bytes(old(s)@).skip(idx as int))[0],
        text_bytes(final(s)@) == text_bytes(old(s)@).take(idx as int) + text_bytes(old(s)@).skip(
            idx + encode_utf8(seq![c]).len(),
        ),
{
    s.remove(idx)
}

/// Inserts `ch` at the cursor and moves the cursor on by one.
pub fn insert_at_cursor(text: &mut String, cursor: &mut usize, ch: char)
    requires
        is_char_boundary(text_bytes(old(text)@), *old(cursor) as int),
        *old(cursor) < usize::MAX,
    ensures
        final(text)@ == text_inserted(old(text)@, *old(cursor) as int, ch),
        *final(cursor) == *old(cursor) + 1,
{
    string_insert(text, *cursor, ch);
    proof {
        encode_utf8_decode_utf8(final(text)@);
    }
    *cursor = *cursor + 1;
}

/// Removes the character at byte position `idx`.
pub fn remove_at(text: &mut String, idx: usize)
    requires
        is_char_boundary(text_bytes(old(text)@), idx as int),
        idx < text_bytes(old(text)@).len(),
    ensures
        final(text)@ == text_removed(old(text)@, idx as int),
{
    let _ = string_remove(text, idx);
    proof {
        encode_utf8_decode_utf8(final(text)@);
    }
}

/// The byte length of a text.
pub fn text_len(text: &String) -> (n: usize)
    ensures
        n == text_bytes(text@).len(),
{
    text.as_str().as_bytes().len()
}

/// Whether the byte position `idx` is a character boundary of the text.
pub fn at_char_boundary(text: &String, idx: usize) -> (b: bool)
    ensures
        b == is_char_boundary(text_bytes(text@), idx as int),
{
    text.as_str().is_char_boundary(idx)
}

// ---------------------------------------------------------------------------
// Selections
// ---------------------------------------------------------------------------

/// The selection after moving to the next item (the first one when nothing is selected).
pub open spec fn next_selection(selected: Option<usize>) -> Option<usize> {
    match selected {
        Some(i) => Some(if i == usize::MAX { i } else { (i + 1) as usize }),
        None => Some(0),
    }
}

/// The selection after moving to the previous item (the last possible one when nothing is
/// selected; a list clamps it to its length when it is drawn).
pub open spec fn previous_selection(selected: Option<usize>) -> Option<usize> {
    match selected {
        Some(i) => Some(if i == 0 { 0 } else { (i - 1) as usize }),
        None => Some(usize::MAX),
    }
}

/// Moves the selection to the next item, as `ListState::select_next` does.
pub fn select_next(selected: Option<usize>) -> (r: Option<usize>)
    ensures
        r == next_selection(selected),
{
    match selected {
        Some(i) => Some(i.saturating_add(1)),
        None => Some(0),
    }
}

/// Moves the selection to the previous item, as `ListState::select_previous` does.
pub fn select_previous(selected: Option<usize>) -> (r: Option<usize>)
    ensures
        r == previous_selection(selected),
{
    match selected {
        Some(i) => Some(i.saturating_sub(1)),
        None => Some(usize::MAX),
    }
}

/// The option to the left of `idx` among `len` options, wrapping to the last.
pub open spec fn option_left(idx: usize, len: usize) -> usize {
    if idx == 0 { (len - 1) as usize } else { (idx - 1) as usize }
}

/// The option to the right of `idx` among `len` options, wrapping to the first.
pub open spec fn option_right(idx: usize, len: usize) -> usize {
    if idx == len - 1 { 0 } else { (idx + 1) as usize }
}

} // verus!
