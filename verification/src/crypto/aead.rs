//! ChaCha20-Poly1305 authenticated encryption and HKDF-SHA256 key derivation:
//! the building blocks of the ratchet.
use vstd::prelude::*;

use chacha20poly1305::aead::{Aead, Payload};
use chacha20poly1305::{ChaCha20Poly1305, KeyInit};
use hkdf::Hkdf;
use sha2::Sha256;

verus! {

/// 32 bytes of secret or public key material.
pub type KeyMaterial = [u8; 32];

/// Longest output HKDF-SHA256 can expand to (255 blocks).
pub const HKDF_MAX_OUTPUT: usize = 8160;

/// Plaintexts of this many bytes or more are refused by ChaCha20-Poly1305
/// (the block counter would overflow): 64 * (2^32 - 1).
pub const AEAD_MAX_PLAINTEXT: u64 = 274877906880;

/// Length of the Poly1305 authentication tag appended to every ciphertext.
pub const AEAD_TAG_LEN: usize = 16;

// ---------------------------------------------------------------------------
// Names for what the outside primitives compute
// ---------------------------------------------------------------------------

/// The `len` bytes of HKDF-SHA256 output for `salt`, `ikm` and `info`.
pub uninterp spec fn hkdf_sha256(salt: Option<Seq<u8>>, ikm: Seq<u8>, info: Seq<u8>, len: nat) -> Seq<u8>;

/// ChaCha20-Poly1305 ciphertext (with its tag) of `plaintext` under `key`, `nonce` and `aad`.
pub uninterp spec fn chacha20poly1305_seal(key: Seq<u8>, nonce: Seq<u8>, plaintext: Seq<u8>, aad: Seq<u8>) -> Seq<u8>;

/// Result of opening `ciphertext` with ChaCha20-Poly1305 under `key`, `nonce` and `aad`:
/// the plaintext, or `None` when authentication fails.
pub uninterp spec fn chacha20poly1305_open(key: Seq<u8>, nonce: Seq<u8>, ciphertext: Seq<u8>, aad: Seq<u8>) -> Option<Seq<u8>>;

pub open spec fn opt_bytes(salt: Option<&[u8]>) -> Option<Seq<u8>> {
    match salt {
        Some(s) => Some(s@),
        None => None,
    }
}

// ---------------------------------------------------------------------------
// Outside types
// ---------------------------------------------------------------------------

#[verifier::external_type_specification]
#[verifier::external_body]
pub struct ExHkdfInvalidLength(hkdf::InvalidLength);

#[verifier::external_type_specification]
#[verifier::external_body]
pub struct ExAeadError(chacha20poly1305::Error);

// ---------------------------------------------------------------------------
// Trusted calls
// ---------------------------------------------------------------------------

/// Calls `hkdf::Hkdf::<Sha256>::new(salt, ikm)` and then `expand(info, okm)` into a buffer
/// of `len` bytes. As the hkdf source shows, `expand` fails exactly when `len` exceeds
/// 255 hash blocks (8160 bytes) and otherwise fills the whole buffer.
#[verifier::external_body]
fn hkdf_sha256_expand(salt: Option<&[u8]>, ikm: &[u8], info: &[u8], len: usize) -> (out: Result<Vec<u8>, hkdf::InvalidLength>)
    ensures
        out is Ok <==> len <= HKDF_MAX_OUTPUT,
        out matches Ok(okm) ==> okm@ == hkdf_sha256(opt_bytes(salt), ikm@, info@, len as nat),
        out matches Ok(okm) ==> okm@.len() == len,
{
    let hk = Hkdf::<Sha256>::new(salt, ikm);
    let mut okm = vec![0u8; len];
    match hk.expand(info, &mut okm) {
        Ok(()) => Ok(okm),
        Err(e) => Err(e),
    }
}

/// Calls `ChaCha20Poly1305::new(key).encrypt(nonce, Payload { msg, aad })`.
/// The chacha20poly1305 source refuses a plaintext of `AEAD_MAX_PLAINTEXT` bytes or more
/// and otherwise returns the ciphertext followed by a 16-byte tag; as the crate's
/// documentation shows, `decrypt` with the same key, nonce and aad gives the plaintext back.
#[verifier::external_body]
pub(crate) fn chacha20poly1305_encrypt(key: &[u8; 32], nonce: &[u8; 12], plaintext: &[u8], aad: &[u8]) -> (out: Result<Vec<u8>, chacha20poly1305::Error>)
    ensures
        out is Ok <==> plaintext@.len() < AEAD_MAX_PLAINTEXT,
        out matches Ok(c) ==> c@ == chacha20poly1305_seal(key@, nonce@, plaintext@, aad@),
        out matches Ok(c) ==> c@.len() == plaintext@.len() + AEAD_TAG_LEN,
        out matches Ok(c) ==> chacha20poly1305_open(key@, nonce@, c@, aad@) == Some(plaintext@),
{
    let cipher = ChaCha20Poly1305::new(key.into());
    cipher.encrypt(nonce.into(), Payload { msg: plaintext, aad })
}

/// Calls `ChaCha20Poly1305::new(key).decrypt(nonce, Payload { msg: ciphertext, aad })`:
/// the plaintext when the tag authenticates, an error otherwise.
#[verifier::external_body]
pub(crate) fn chacha20poly1305_decrypt(key: &[u8; 32], nonce: &[u8; 12], ciphertext: &[u8], aad: &[u8]) -> (out: Result<Vec<u8>, chacha20poly1305::Error>)
    ensures
        out is Ok <==> chacha20poly1305_open(key@, nonce@, ciphertext@, aad@) is Some,
        out matches Ok(p) ==> chacha20poly1305_open(key@, nonce@, ciphertext@, aad@) == Some(p@),
{
    let cipher = ChaCha20Poly1305::new(key.into());
    cipher.decrypt(nonce.into(), Payload { msg: ciphertext, aad })
}


// ---------------------------------------------------------------------------
// Big-endian integers
// ---------------------------------------------------------------------------

/// Big-endian encoding of a `u64`.
pub open spec fn be_u64(x: u64) -> Seq<u8> {
    seq![
        (x >> 56) as u8, (x >> 48) as u8, (x >> 40) as u8, (x >> 32) as u8,
        (x >> 24) as u8, (x >> 16) as u8, (x >> 8) as u8, x as u8,
    ]
}

/// Big-endian encoding of a `u32`.
pub open spec fn be_u32(x: u32) -> Seq<u8> {
    seq![(x >> 24) as u8, (x >> 16) as u8, (x >> 8) as u8, x as u8]
}

/// The `u64` whose big-endian encoding starts `s` (which holds at least 8 bytes).
pub open spec fn u64_of_be(s: Seq<u8>) -> u64 {
    ((s[0] as u64) << 56) | ((s[1] as u64) << 48) | ((s[2] as u64) << 40) | ((s[3] as u64) << 32)
        | ((s[4] as u64) << 24) | ((s[5] as u64) << 16) | ((s[6] as u64) << 8) | (s[7] as u64)
}

pub(crate) fn u64_to_be_bytes(x: u64) -> (r: [u8; 8])
    ensures
        r@ == be_u64(x),
{
    let r: [u8; 8] = [
        (x >> 56) as u8, (x >> 48) as u8, (x >> 40) as u8, (x >> 32) as u8,
        (x >> 24) as u8, (x >> 16) as u8, (x >> 8) as u8, x as u8,
    ];
    assert(r@ =~= be_u64(x));
    r
}

pub(crate) fn u32_to_be_bytes(x: u32) -> (r: [u8; 4])
    ensures
        r@ == be_u32(x),
{
    let r: [u8; 4] = [(x >> 24) as u8, (x >> 16) as u8, (x >> 8) as u8, x as u8];
    assert(r@ =~= be_u32(x));
    r
}

pub(crate) fn u64_from_be_bytes(s: &[u8], start: usize) -> (r: u64)
    requires
        start + 8 <= s@.len(),
    ensures
        r == u64_of_be(s@.subrange(start as int, start + 8)),
{
    let ghost w = s@.subrange(start as int, start + 8);
    assert(w[0] == s@[start as int] && w[7] == s@[start + 7]);
    ((s[start] as u64) << 56) | ((s[start + 1] as u64) << 48) | ((s[start + 2] as u64) << 40)
        | ((s[start + 3] as u64) << 32) | ((s[start + 4] as u64) << 24) | ((s[start + 5] as u64)
        << 16) | ((s[start + 6] as u64) << 8) | (s[start + 7] as u64)
}

/// Decoding a big-endian encoding gives the number back.
pub proof fn lemma_u64_be_roundtrip(x: u64)
    ensures
        u64_of_be(be_u64(x)) == x,
{
    let b0 = (x >> 56) as u8;
    let b1 = (x >> 48) as u8;
    let b2 = (x >> 40) as u8;
    let b3 = (x >> 32) as u8;
    let b4 = (x >> 24) as u8;
    let b5 = (x >> 16) as u8;
    let b6 = (x >> 8) as u8;
    let b7 = x as u8;
    assert(((b0 as u64) << 56) | ((b1 as u64) << 48) | ((b2 as u64) << 40) | ((b3 as u64) << 32)
        | ((b4 as u64) << 24) | ((b5 as u64) << 16) | ((b6 as u64) << 8) | (b7 as u64) == x)
        by (bit_vector)
        requires
            b0 == (x >> 56) as u8, b1 == (x >> 48) as u8, b2 == (x >> 40) as u8,
            b3 == (x >> 32) as u8, b4 == (x >> 24) as u8, b5 == (x >> 16) as u8,
            b6 == (x >> 8) as u8, b7 == x as u8,
    ;
}

/// Encoding the number decoded from 8 bytes gives the bytes back.
pub proof fn lemma_be_u64_roundtrip(s: Seq<u8>)
    requires
        s.len() == 8,
    ensures
        be_u64(u64_of_be(s)) == s,
{
    let (b0, b1, b2, b3, b4, b5, b6, b7) = (s[0], s[1], s[2], s[3], s[4], s[5], s[6], s[7]);
    let x = u64_of_be(s);
    assert(
        (x >> 56) as u8 == b0 && (x >> 48) as u8 == b1 && (x >> 40) as u8 == b2 && (x >> 32) as u8 == b3
        && (x >> 24) as u8 == b4 && (x >> 16) as u8 == b5 && (x >> 8) as u8 == b6 && x as u8 == b7
    ) by (bit_vector)
        requires
            x == ((b0 as u64) << 56) | ((b1 as u64) << 48) | ((b2 as u64) << 40) | ((b3 as u64) << 32)
                | ((b4 as u64) << 24) | ((b5 as u64) << 16) | ((b6 as u64) << 8) | (b7 as u64),
    ;
    assert(be_u64(x) =~= s);
}


// ---------------------------------------------------------------------------
// Keys, messages and errors
// ---------------------------------------------------------------------------

/// Errors of the AEAD layer.
#[derive(Debug, Clone, Copy, PartialEq, Eq)]
pub enum AeadError {
    /// The plaintext was too long to encrypt.
    Encryption,
    /// The ciphertext did not authenticate under the key, nonce and associated data.
    Decryption,
}

/// HKDF was asked for more output than it can produce.
#[derive(Debug, Clone, Copy, PartialEq, Eq)]
pub struct KdfLengthError;

/// A key that encrypts exactly one message.
#[derive(Clone, Copy)]
pub struct MessageKey(KeyMaterial);

impl MessageKey {
    pub closed spec fn bytes(&self) -> Seq<u8> {
        self.0@
    }

    pub fn from_bytes(bytes: KeyMaterial) -> (key: Self)
        ensures
            key.bytes() == bytes@,
    {
        MessageKey(bytes)
    }

    pub fn as_bytes(&self) -> (bytes: &KeyMaterial)
        ensures
            bytes@ == self.bytes(),
    {
        &self.0
    }
}

/// A nonce (the sender's message counter) and the ChaCha20-Poly1305 ciphertext made with it.
#[derive(Debug, Clone, PartialEq, Eq)]
pub struct EncryptedMessage {
    pub nonce: u64,
    pub ciphertext: Vec<u8>,
}

/// The 12-byte ChaCha20-Poly1305 nonce for a message counter: four zero bytes,
/// then the counter in big-endian order.
pub open spec fn aead_nonce(counter: u64) -> Seq<u8> {
    seq![0u8, 0u8, 0u8, 0u8] + be_u64(counter)
}

pub(crate) fn aead_nonce_bytes(counter: u64) -> (nonce: [u8; 12])
    ensures
        nonce@ == aead_nonce(counter),
{
    let b = u64_to_be_bytes(counter);
    let nonce: [u8; 12] = [0, 0, 0, 0, b[0], b[1], b[2], b[3], b[4], b[5], b[6], b[7]];
    assert(nonce@ =~= aead_nonce(counter));
    nonce
}

/// What `decrypt_with_aad` gives for a key, an encrypted message and associated data.
pub open spec fn aead_open(key: Seq<u8>, msg: EncryptedMessage, aad: Seq<u8>) -> Option<Seq<u8>> {
    chacha20poly1305_open(key, aead_nonce(msg.nonce), msg.ciphertext@, aad)
}

/// Encrypts `plaintext` under `key`, with the nonce made from `nonce` and with `aad`
/// authenticated alongside.
pub fn encrypt_with_aad(key: &MessageKey, nonce: u64, plaintext: &[u8], aad: &[u8]) -> (out: Result<EncryptedMessage, AeadError>)
    ensures
        out is Ok <==> plaintext@.len() < AEAD_MAX_PLAINTEXT,
        out matches Ok(m) ==> m.nonce == nonce
            && m.ciphertext@ == chacha20poly1305_seal(key.bytes(), aead_nonce(nonce), plaintext@, aad@)
            && aead_open(key.bytes(), m, aad@) == Some(plaintext@),
        out matches Err(e) ==> e == AeadError::Encryption,
{
    let n = aead_nonce_bytes(nonce);
    match chacha20poly1305_encrypt(&key.0, &n, plaintext, aad) {
        Ok(ciphertext) => Ok(EncryptedMessage { nonce, ciphertext }),
        Err(_) => Err(AeadError::Encryption),
    }
}

/// Decrypts `msg` under `key` with associated data `aad`.
pub fn decrypt_with_aad(key: &MessageKey, msg: &EncryptedMessage, aad: &[u8]) -> (out: Result<Vec<u8>, AeadError>)
    ensures
        out is Ok <==> aead_open(key.bytes(), *msg, aad@) is Some,
        out matches Ok(p) ==> aead_open(key.bytes(), *msg, aad@) == Some(p@),
        out matches Err(e) ==> e == AeadError::Decryption,
{
    let n = aead_nonce_bytes(msg.nonce);
    match chacha20poly1305_decrypt(&key.0, &n, msg.ciphertext.as_slice(), aad) {
        Ok(p) => Ok(p),
        Err(_) => Err(AeadError::Decryption),
    }
}

/// HKDF-SHA256: `len` bytes derived from `ikm`, `salt` and `info`.
pub fn hkdf_derive(ikm: &[u8], salt: Option<&[u8]>, info: &[u8], len: usize) -> (out: Result<Vec<u8>, KdfLengthError>)
    ensures
        out is Ok <==> len <= HKDF_MAX_OUTPUT,
        out matches Ok(okm) ==> okm@ == hkdf_sha256(opt_bytes(salt), ikm@, info@, len as nat)
            && okm@.len() == len,
{
    match hkdf_sha256_expand(salt, ikm, info, len) {
        Ok(okm) => Ok(okm),
        Err(_) => Err(KdfLengthError),
    }
}

/// The 32 bytes of `v` from `start` on, as key material.
pub(crate) fn key_at(v: &[u8], start: usize) -> (key: KeyMaterial)
    requires
        start + 32 <= v@.len(),
    ensures
        key@ == v@.subrange(start as int, start + 32),
{
    let mut key: KeyMaterial = [0u8; 32];
    let len = v.len();
    let mut i: usize = 0;
    while i < 32
        invariant
            i <= 32,
            len == v@.len(),
            start + 32 <= v@.len(),
            key@.len() == 32,
            forall|j: int| 0 <= j < i ==> key@[j] == v@[start + j],
        decreases 32 - i,
    {
        key[i] = v[start + i];
        i = i + 1;
    }
    assert(key@ =~= v@.subrange(start as int, start + 32));
    key
}

} // verus!
