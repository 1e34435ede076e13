//! The mathematical model of a Double Ratchet session: its state as plain values, and what
//! each operation does to it.
use vstd::prelude::*;

use crate::crypto::aead::{
    AEAD_MAX_PLAINTEXT, AeadError, aead_nonce, be_u32, be_u64, chacha20poly1305_open,
    chacha20poly1305_seal, hkdf_sha256, u64_of_be,
};
use crate::crypto::dh::{dh_agrees, x25519_public_key, x25519_shared_secret};
use crate::crypto::ratchet::RatchetError;

verus! {

/// Most message keys one chain may skip at once.
pub const MAX_SKIP: u64 = 1000;

/// Most skipped message keys stored over all chains.
pub const MAX_SKIPPED_KEYS: usize = 2000;

// HKDF `info` labels, one per derivation.
pub open spec fn info_root() -> Seq<u8> {
    seq![99u8, 111, 110, 97, 110, 45, 118, 49, 45, 114, 111, 111, 116]
}

pub open spec fn info_chain() -> Seq<u8> {
    seq![99u8, 111, 110, 97, 110, 45, 118, 49, 45, 99, 104, 97, 105, 110]
}

pub open spec fn info_message() -> Seq<u8> {
    seq![99u8, 111, 110, 97, 110, 45, 118, 49, 45, 109, 101, 115, 115, 97, 103, 101]
}

pub open spec fn info_init_rk() -> Seq<u8> {
    seq![99u8, 111, 110, 97, 110, 45, 118, 49, 45, 105, 110, 105, 116, 45, 114, 107]
}

pub open spec fn info_init_hks() -> Seq<u8> {
    seq![99u8, 111, 110, 97, 110, 45, 118, 49, 45, 105, 110, 105, 116, 45, 104, 107, 115]
}

pub open spec fn info_init_hkr() -> Seq<u8> {
    seq![99u8, 111, 110, 97, 110, 45, 118, 49, 45, 105, 110, 105, 116, 45, 104, 107, 114]
}

// ---------------------------------------------------------------------------
// Key derivation
// ---------------------------------------------------------------------------

/// KDF_CK: the message key a chain key yields.
pub open spec fn chain_message_key(ck: Seq<u8>) -> Seq<u8> {
    hkdf_sha256(None, ck, info_message(), 32)
}

/// KDF_CK: the chain key that follows `ck`.
pub open spec fn chain_next(ck: Seq<u8>) -> Seq<u8> {
    hkdf_sha256(None, ck, info_chain(), 32)
}

/// KDF_RK: 96 bytes derived from the root key and a Diffie-Hellman output.
pub open spec fn root_material(rk: Seq<u8>, dh: Seq<u8>) -> Seq<u8> {
    hkdf_sha256(Some(rk), dh, info_root(), 96)
}

/// The new root key (bytes 0..32 of KDF_RK).
pub open spec fn root_next(rk: Seq<u8>, dh: Seq<u8>) -> Seq<u8> {
    root_material(rk, dh).subrange(0, 32)
}

/// The new chain key (bytes 32..64 of KDF_RK).
pub open spec fn root_chain(rk: Seq<u8>, dh: Seq<u8>) -> Seq<u8> {
    root_material(rk, dh).subrange(32, 64)
}

/// The next header key (bytes 64..96 of KDF_RK).
pub open spec fn root_header(rk: Seq<u8>, dh: Seq<u8>) -> Seq<u8> {
    root_material(rk, dh).subrange(64, 96)
}

/// The initial key derived from the shared secret with one of the `init` labels.
pub open spec fn initial_key(shared_secret: Seq<u8>, info: Seq<u8>) -> Seq<u8> {
    hkdf_sha256(None, shared_secret, info, 32)
}

// ---------------------------------------------------------------------------
// Headers, messages and associated data
// ---------------------------------------------------------------------------

/// A ratchet header as plain values.
pub struct HeaderView {
    pub dh_pub: Seq<u8>,
    pub prev_chain_length: u64,
    pub message_number: u64,
}

/// The 48-byte encoding of a header: public key, then both counters big-endian.
pub open spec fn header_bytes(h: HeaderView) -> Seq<u8> {
    h.dh_pub + be_u64(h.prev_chain_length) + be_u64(h.message_number)
}

/// The header that 48 bytes encode; no header for any other length.
pub open spec fn parse_header(b: Seq<u8>) -> Option<HeaderView> {
    if b.len() == 48 {
        Some(
            HeaderView {
                dh_pub: b.subrange(0, 32),
                prev_chain_length: u64_of_be(b.subrange(32, 40)),
                message_number: u64_of_be(b.subrange(40, 48)),
            },
        )
    } else {
        None
    }
}

/// An encrypted message as plain values: its nonce and its ciphertext.
pub struct SealedView {
    pub nonce: u64,
    pub ciphertext: Seq<u8>,
}

/// A ratchet message as plain values.
pub struct MessageView {
    pub header: SealedView,
    pub payload: SealedView,
}

/// The associated data the payload is bound to: the length of the caller's associated data
/// (truncated to 32 bits, big-endian), that data, the header's nonce (big-endian) and the
/// header's ciphertext.
pub open spec fn payload_aad(ad: Seq<u8>, header: SealedView) -> Seq<u8> {
    be_u32(ad.len() as u32) + ad + be_u64(header.nonce) + header.ciphertext
}

pub open spec fn open_sealed(key: Seq<u8>, m: SealedView, aad: Seq<u8>) -> Option<Seq<u8>> {
    chacha20poly1305_open(key, aead_nonce(m.nonce), m.ciphertext, aad)
}

// ---------------------------------------------------------------------------
// Session state
// ---------------------------------------------------------------------------

/// A stored skipped message key: header key, message number, message key.
pub type SkippedEntry = (Seq<u8>, u64, Seq<u8>);

/// The state of a session as plain values.
pub struct SessionView {
    pub root_key: Seq<u8>,
    pub send_chain: Option<Seq<u8>>,
    pub recv_chain: Option<Seq<u8>>,
    pub header_key_send: Option<Seq<u8>>,
    pub header_key_recv: Option<Seq<u8>>,
    pub next_header_key_send: Option<Seq<u8>>,
    pub next_header_key_recv: Option<Seq<u8>>,
    pub local_secret: Seq<u8>,
    pub local_public: Seq<u8>,
    pub remote_public: Option<Seq<u8>>,
    pub send_count: u64,
    pub recv_count: u64,
    pub prev_chain_length: u64,
    pub skipped: Seq<SkippedEntry>,
}

/// Whether a stored entry is indexed by header key `hk` and message number `n`.
pub open spec fn entry_is(e: SkippedEntry, hk: Seq<u8>, n: u64) -> bool {
    e.0 == hk && e.1 == n
}

/// The position of the first entry indexed by (`hk`, `n`), if any.
pub open spec fn skipped_position(sk: Seq<SkippedEntry>, hk: Seq<u8>, n: u64) -> Option<int> {
    if exists|i: int| 0 <= i < sk.len() && entry_is(sk[i], hk, n) {
        Some(
            choose|i: int|
                0 <= i < sk.len() && entry_is(sk[i], hk, n) && forall|j: int|
                    0 <= j < i ==> !entry_is(sk[j], hk, n),
        )
    } else {
        None
    }
}

/// An entry indexed by (`hk`, `n`) at position `k` means there is a first such position.
proof fn lemma_first_entry_exists(sk: Seq<SkippedEntry>, hk: Seq<u8>, n: u64, k: int)
    requires
        0 <= k < sk.len(),
        entry_is(sk[k], hk, n),
    ensures
        exists|i: int|
            0 <= i < sk.len() && entry_is(sk[i], hk, n) && forall|j: int| 0 <= j < i ==> !entry_is(sk[j], hk, n),
    decreases k,
{
    if exists|j: int| 0 <= j < k && entry_is(sk[j], hk, n) {
        let j = choose|j: int| 0 <= j < k && entry_is(sk[j], hk, n);
        lemma_first_entry_exists(sk, hk, n, j);
    } else {
        assert(forall|j: int| 0 <= j < k ==> !entry_is(sk[j], hk, n));
    }
}

/// The position of an entry, when there is one, is within the store and holds such an entry.
pub proof fn lemma_skipped_position_found(sk: Seq<SkippedEntry>, hk: Seq<u8>, n: u64)
    ensures
        skipped_position(sk, hk, n) matches Some(i) ==> 0 <= i < sk.len() && entry_is(sk[i], hk, n),
{
    if exists|i: int| 0 <= i < sk.len() && entry_is(sk[i], hk, n) {
        let k = choose|i: int| 0 <= i < sk.len() && entry_is(sk[i], hk, n);
        lemma_first_entry_exists(sk, hk, n, k);
    }
}

/// The store after recording a key under (`hk`, `n`): it replaces the key already stored
/// there, or is added at the end.
pub open spec fn skipped_insert(sk: Seq<SkippedEntry>, hk: Seq<u8>, n: u64, mk: Seq<u8>) -> Seq<SkippedEntry> {
    match skipped_position(sk, hk, n) {
        Some(i) => sk.update(i, (hk, n, mk)),
        None => sk.push((hk, n, mk)),
    }
}

/// The store of skipped message keys as the session keeps it: at most `MAX_SKIPPED_KEYS`
/// keys, and no two under the same header key and message number.
pub open spec fn skipped_store_ok(sk: Seq<SkippedEntry>) -> bool {
    &&& sk.len() <= MAX_SKIPPED_KEYS
    &&& forall|i: int, j: int|
        0 <= i < j < sk.len() ==> !entry_is(#[trigger] sk[i], sk[j].0, #[trigger] sk[j].1)
}

pub proof fn lemma_insert_keeps_store(sk: Seq<SkippedEntry>, hk: Seq<u8>, n: u64, mk: Seq<u8>)
    requires
        skipped_store_ok(sk),
        sk.len() < MAX_SKIPPED_KEYS,
    ensures
        skipped_store_ok(skipped_insert(sk, hk, n, mk)),
{
    lemma_skipped_position_found(sk, hk, n);
    let out = skipped_insert(sk, hk, n, mk);
    match skipped_position(sk, hk, n) {
        Some(k) => {
            assert forall|i: int, j: int| 0 <= i < j < out.len() implies !entry_is(#[trigger] out[i], out[j].0, #[trigger] out[j].1) by {
                assert(entry_is(sk[k], hk, n));
                if i == k {
                    assert(!entry_is(sk[k], sk[j].0, sk[j].1));
                } else if j == k {
                    assert(!entry_is(sk[i], sk[k].0, sk[k].1));
                }
            }
        },
        None => {
            assert(forall|i: int| 0 <= i < sk.len() ==> !entry_is(sk[i], hk, n));
            assert forall|i: int, j: int| 0 <= i < j < out.len() implies !entry_is(#[trigger] out[i], out[j].0, #[trigger] out[j].1) by {
                if j == sk.len() {
                    assert(!entry_is(sk[i], hk, n));
                }
            }
        },
    }
}

pub proof fn lemma_remove_keeps_store(sk: Seq<SkippedEntry>, k: int)
    requires
        skipped_store_ok(sk),
        0 <= k < sk.len(),
    ensures
        skipped_store_ok(sk.remove(k)),
{
    let out = sk.remove(k);
    assert forall|i: int, j: int| 0 <= i < j < out.len() implies !entry_is(#[trigger] out[i], out[j].0, #[trigger] out[j].1) by {
        let i0 = if i < k { i } else { i + 1 };
        let j0 = if j < k { j } else { j + 1 };
        assert(out[i] == sk[i0]);
        assert(out[j] == sk[j0]);
        assert(!entry_is(sk[i0], sk[j0].0, sk[j0].1));
    }
}

// ---------------------------------------------------------------------------
// Initialisation
// ---------------------------------------------------------------------------

/// The initiator's session for a shared secret, the responder's ratchet public key and the
/// initiator's fresh ratchet secret.
pub open spec fn init_sender_state(shared_secret: Seq<u8>, remote: Seq<u8>, secret: Seq<u8>) -> SessionView {
    let rk0 = initial_key(shared_secret, info_init_rk());
    let dh = x25519_shared_secret(secret, remote);
    SessionView {
        root_key: root_next(rk0, dh),
        send_chain: Some(root_chain(rk0, dh)),
        recv_chain: None,
        header_key_send: Some(initial_key(shared_secret, info_init_hks())),
        header_key_recv: None,
        next_header_key_send: Some(root_header(rk0, dh)),
        next_header_key_recv: Some(initial_key(shared_secret, info_init_hkr())),
        local_secret: secret,
        local_public: x25519_public_key(secret),
        remote_public: Some(remote),
        send_count: 0,
        recv_count: 0,
        prev_chain_length: 0,
        skipped: Seq::empty(),
    }
}

/// The responder's session for a shared secret and its own ratchet secret.
pub open spec fn init_receiver_state(shared_secret: Seq<u8>, secret: Seq<u8>) -> SessionView {
    SessionView {
        root_key: initial_key(shared_secret, info_init_rk()),
        send_chain: None,
        recv_chain: None,
        header_key_send: Some(initial_key(shared_secret, info_init_hkr())),
        header_key_recv: None,
        next_header_key_send: None,
        next_header_key_recv: Some(initial_key(shared_secret, info_init_hks())),
        local_secret: secret,
        local_public: x25519_public_key(secret),
        remote_public: None,
        send_count: 0,
        recv_count: 0,
        prev_chain_length: 0,
        skipped: Seq::empty(),
    }
}

// ---------------------------------------------------------------------------
// Encryption
// ---------------------------------------------------------------------------

/// The header the next message of `s` carries.
pub open spec fn next_header(s: SessionView) -> HeaderView {
    HeaderView {
        dh_pub: s.local_public,
        prev_chain_length: s.prev_chain_length,
        message_number: s.send_count,
    }
}

/// What encrypting `plaintext` with associated data `ad` does: the new state and the result.
pub open spec fn encrypt_step(s: SessionView, plaintext: Seq<u8>, ad: Seq<u8>) -> (SessionView, Result<MessageView, RatchetError>) {
    match s.send_chain {
        None => (s, Err(RatchetError::SendChainNotInitialized)),
        Some(ck) => {
            let s1 = SessionView { send_chain: Some(chain_next(ck)), ..s };
            match s.header_key_send {
                None => (s1, Err(RatchetError::SendChainNotInitialized)),
                Some(hk) => {
                    let header = SealedView {
                        nonce: s.send_count,
                        ciphertext: chacha20poly1305_seal(
                            hk,
                            aead_nonce(s.send_count),
                            header_bytes(next_header(s)),
                            Seq::empty(),
                        ),
                    };
                    if plaintext.len() < AEAD_MAX_PLAINTEXT {
                        let payload = SealedView {
                            nonce: s.send_count,
                            ciphertext: chacha20poly1305_seal(
                                chain_message_key(ck),
                                aead_nonce(s.send_count),
                                plaintext,
                                payload_aad(ad, header),
                            ),
                        };
                        (
                            SessionView { send_count: (s.send_count + 1) as u64, ..s1 },
                            Ok(MessageView { header, payload }),
                        )
                    } else {
                        (s1, Err(RatchetError::Aead(AeadError::Encryption)))
                    }
                },
            }
        },
    }
}

/// What the encryption that produced `m` from state `s` guarantees of opening it: the
/// header key opens the header to the encoded header, and the message key opens the payload
/// to the plaintext.
pub open spec fn encryption_opens(s: SessionView, plaintext: Seq<u8>, ad: Seq<u8>, m: MessageView) -> bool {
    &&& s.header_key_send matches Some(hk) && open_sealed(hk, m.header, Seq::empty()) == Some(
        header_bytes(next_header(s)),
    )
    &&& s.send_chain matches Some(ck) && open_sealed(chain_message_key(ck), m.payload, payload_aad(ad, m.header))
        == Some(plaintext)
}

/// Everything that encrypting `plaintext` with `ad` in state `old` guarantees of the new
/// state `new` and the result `res`.
pub open spec fn encrypted(old: SessionView, plaintext: Seq<u8>, ad: Seq<u8>, new: SessionView, res: Result<MessageView, RatchetError>) -> bool {
    &&& (new, res) == encrypt_step(old, plaintext, ad)
    &&& res matches Ok(m) ==> encryption_opens(old, plaintext, ad, m)
}

// ---------------------------------------------------------------------------
// Decryption
// ---------------------------------------------------------------------------

/// Trial decryption of a header with one (optional) header key.
pub open spec fn try_header_key(hk: Option<Seq<u8>>, header: SealedView) -> Option<(HeaderView, Seq<u8>)> {
    match hk {
        Some(k) => match open_sealed(k, header, Seq::empty()) {
            Some(b) => match parse_header(b) {
                Some(h) => Some((h, k)),
                None => None,
            },
            None => None,
        },
        None => None,
    }
}

/// Trial decryption of a header with the current, then the next receiving header key.
pub open spec fn decrypt_header(s: SessionView, header: SealedView) -> Result<(HeaderView, Seq<u8>), RatchetError> {
    match try_header_key(s.header_key_recv, header) {
        Some(r) => Ok(r),
        None => match try_header_key(s.next_header_key_recv, header) {
            Some(r) => Ok(r),
            None => Err(RatchetError::HeaderDecryptionFailed),
        },
    }
}

/// Storing the skipped keys of the receiving chain under header key `hk` until the message
/// counter reaches `until` (which is at most `MAX_SKIP` ahead).
pub open spec fn skip_loop(s: SessionView, hk: Seq<u8>, until: u64) -> (SessionView, Result<(), RatchetError>)
    decreases until - s.recv_count,
{
    if s.recv_count >= until {
        (s, Ok(()))
    } else {
        match s.recv_chain {
            None => (s, Ok(())),
            Some(ck) => {
                let s1 = SessionView { recv_chain: Some(chain_next(ck)), ..s };
                if s.skipped.len() >= MAX_SKIPPED_KEYS {
                    (s1, Err(RatchetError::SkippedKeysFull))
                } else {
                    let s2 = SessionView {
                        skipped: skipped_insert(s.skipped, hk, s.recv_count, chain_message_key(ck)),
                        recv_count: (s.recv_count + 1) as u64,
                        ..s1
                    };
                    skip_loop(s2, hk, until)
                }
            },
        }
    }
}

/// The header key skipped keys are stored under: the current receiving header key, or
/// 32 zero bytes when there is none.
pub open spec fn skip_header_key(s: SessionView) -> Seq<u8> {
    match s.header_key_recv {
        Some(hk) => hk,
        None => Seq::new(32, |i: int| 0u8),
    }
}

/// Skipping the receiving chain ahead to message number `until`.
pub open spec fn skip_step(s: SessionView, until: u64) -> (SessionView, Result<(), RatchetError>) {
    if until > s.recv_count + MAX_SKIP {
        (s, Err(RatchetError::TooManySkipped((until - s.recv_count) as u64)))
    } else {
        match s.recv_chain {
            None => (s, Ok(())),
            Some(_) => skip_loop(s, skip_header_key(s), until),
        }
    }
}

/// A Diffie-Hellman ratchet step towards the remote public key `remote`, with `fresh` as the
/// new local ratchet secret.
pub open spec fn dh_step(s: SessionView, remote: Seq<u8>, fresh: Seq<u8>) -> SessionView {
    let dh_recv = x25519_shared_secret(s.local_secret, remote);
    let rk1 = root_next(s.root_key, dh_recv);
    let dh_send = x25519_shared_secret(fresh, remote);
    SessionView {
        root_key: root_next(rk1, dh_send),
        send_chain: Some(root_chain(rk1, dh_send)),
        recv_chain: Some(root_chain(s.root_key, dh_recv)),
        header_key_send: if s.next_header_key_send is Some {
            s.next_header_key_send
        } else {
            s.header_key_send
        },
        header_key_recv: s.next_header_key_recv,
        next_header_key_send: Some(root_header(rk1, dh_send)),
        next_header_key_recv: Some(root_header(s.root_key, dh_recv)),
        local_secret: fresh,
        local_public: x25519_public_key(fresh),
        remote_public: Some(remote),
        send_count: 0,
        recv_count: 0,
        prev_chain_length: s.send_count,
        skipped: s.skipped,
    }
}

/// Whether a header's public key starts a new Diffie-Hellman epoch for state `s`.
pub open spec fn is_new_remote(s: SessionView, dh_pub: Seq<u8>) -> bool {
    match s.remote_public {
        Some(r) => r != dh_pub,
        None => true,
    }
}

/// The payload's plaintext under message key `mk`, or the decryption error.
pub open spec fn open_payload(mk: Seq<u8>, m: MessageView, ad: Seq<u8>) -> Result<Seq<u8>, RatchetError> {
    match open_sealed(mk, m.payload, payload_aad(ad, m.header)) {
        Some(p) => Ok(p),
        None => Err(RatchetError::Aead(AeadError::Decryption)),
    }
}

/// Decryption with the receiving chain, once the header is known to be for message `n` of
/// the current epoch.
pub open spec fn decrypt_in_chain(s: SessionView, m: MessageView, ad: Seq<u8>, n: u64) -> (SessionView, Result<Seq<u8>, RatchetError>) {
    let (s3, r3) = skip_step(s, n);
    match r3 {
        Err(e) => (s3, Err(e)),
        Ok(_) => match s3.recv_chain {
            None => (s3, Err(RatchetError::RecvChainNotInitialized)),
            Some(ck) => (
                SessionView {
                    recv_chain: Some(chain_next(ck)),
                    recv_count: (s3.recv_count + 1) as u64,
                    ..s3
                },
                open_payload(chain_message_key(ck), m, ad),
            ),
        },
    }
}

/// Whether the stored entry `e` is for the message whose encrypted header is `header`: its
/// header key opens the header, to the entry's message number.
pub open spec fn entry_opens_header(e: SkippedEntry, header: SealedView) -> bool {
    try_header_key(Some(e.0), header) matches Some((h, k)) && h.message_number == e.1
}

/// The position of the first stored entry that is for the message with this encrypted
/// header, if any.
pub open spec fn find_skipped(sk: Seq<SkippedEntry>, header: SealedView) -> Option<int> {
    if exists|i: int| 0 <= i < sk.len() && entry_opens_header(sk[i], header) {
        Some(
            choose|i: int|
                0 <= i < sk.len() && entry_opens_header(sk[i], header) && forall|j: int|
                    0 <= j < i ==> !entry_opens_header(sk[j], header),
        )
    } else {
        None
    }
}

proof fn lemma_first_opening_entry_exists(sk: Seq<SkippedEntry>, header: SealedView, k: int)
    requires
        0 <= k < sk.len(),
        entry_opens_header(sk[k], header),
    ensures
        exists|i: int|
            0 <= i < sk.len() && entry_opens_header(sk[i], header) && forall|j: int|
                0 <= j < i ==> !entry_opens_header(sk[j], header),
    decreases k,
{
    if exists|j: int| 0 <= j < k && entry_opens_header(sk[j], header) {
        let j = choose|j: int| 0 <= j < k && entry_opens_header(sk[j], header);
        lemma_first_opening_entry_exists(sk, header, j);
    }
}

/// The stored entry found for a header is within the store, is for that message, and is the
/// first such entry.
pub proof fn lemma_find_skipped_found(sk: Seq<SkippedEntry>, header: SealedView)
    ensures
        find_skipped(sk, header) matches Some(i) ==> 0 <= i < sk.len() && entry_opens_header(sk[i], header)
            && forall|j: int| 0 <= j < i ==> !entry_opens_header(#[trigger] sk[j], header),
        find_skipped(sk, header) is None ==> forall|j: int| 0 <= j < sk.len() ==> !entry_opens_header(#[trigger] sk[j], header),
{
    if exists|i: int| 0 <= i < sk.len() && entry_opens_header(sk[i], header) {
        let k = choose|i: int| 0 <= i < sk.len() && entry_opens_header(sk[i], header);
        lemma_first_opening_entry_exists(sk, header, k);
    }
}

/// One attempt at decrypting `m` with associated data `ad`, with `fresh` as the secret of a
/// Diffie-Hellman ratchet step should one happen: first with a stored key whose header key
/// opens the header, then with the current or next receiving header key. It gives the state
/// it reaches and the result, whether or not the result is an error.
pub open spec fn decrypt_attempt(s: SessionView, m: MessageView, ad: Seq<u8>, fresh: Seq<u8>) -> (SessionView, Result<Seq<u8>, RatchetError>) {
    match find_skipped(s.skipped, m.header) {
        Some(i) => (SessionView { skipped: s.skipped.remove(i), ..s }, open_payload(s.skipped[i].2, m, ad)),
        None => decrypt_with_header_keys(s, m, ad, fresh),
    }
}

/// Decryption with the current and next receiving header keys, once no stored key applies.
pub open spec fn decrypt_with_header_keys(s: SessionView, m: MessageView, ad: Seq<u8>, fresh: Seq<u8>) -> (SessionView, Result<Seq<u8>, RatchetError>) {
    match decrypt_header(s, m.header) {
        Err(e) => (s, Err(e)),
        Ok((h, hk)) => match skipped_position(s.skipped, hk, h.message_number) {
            Some(i) => (
                SessionView { skipped: s.skipped.remove(i), ..s },
                open_payload(s.skipped[i].2, m, ad),
            ),
            None => if is_new_remote(s, h.dh_pub) {
                let (s1, r1) = skip_step(s, h.prev_chain_length);
                match r1 {
                    Err(e) => (s1, Err(e)),
                    Ok(_) => decrypt_in_chain(dh_step(s1, h.dh_pub, fresh), m, ad, h.message_number),
                }
            } else {
                decrypt_in_chain(s, m, ad, h.message_number)
            },
        },
    }
}

/// What decrypting `m` with associated data `ad` does, with `fresh` as the secret of a
/// Diffie-Hellman ratchet step should one happen: the state an attempt reaches and its
/// plaintext when it succeeds; the state as it was, and the error, when it fails.
pub open spec fn decrypt_step(s: SessionView, m: MessageView, ad: Seq<u8>, fresh: Seq<u8>) -> (SessionView, Result<Seq<u8>, RatchetError>) {
    let (s1, r) = decrypt_attempt(s, m, ad, fresh);
    match r {
        Ok(p) => (s1, Ok(p)),
        Err(e) => (s, Err(e)),
    }
}

/// The remote public key that decrypting `m` in state `s` ratchets to, if it does.
pub open spec fn ratchets_to(s: SessionView, m: MessageView) -> Option<Seq<u8>> {
    match decrypt_header(s, m.header) {
        Err(_) => None,
        Ok((h, hk)) => if find_skipped(s.skipped, m.header) is None && skipped_position(s.skipped, hk, h.message_number) is None && is_new_remote(
            s,
            h.dh_pub,
        ) && skip_step(s, h.prev_chain_length).1 is Ok {
            Some(h.dh_pub)
        } else {
            None
        },
    }
}

/// Everything that decrypting `m` with `ad` in state `old`, with fresh secret `fresh`,
/// guarantees of the new state `new` and the result `res`.
pub open spec fn decrypted(old: SessionView, m: MessageView, ad: Seq<u8>, fresh: Seq<u8>, new: SessionView, res: Result<Seq<u8>, RatchetError>) -> bool {
    &&& (new, res) == decrypt_step(old, m, ad, fresh)
    &&& res is Ok ==> (ratchets_to(old, m) matches Some(r) ==> dh_agrees(fresh, r))
}


/// The Diffie-Hellman secret of a decryption attempt matters only when it ratchets: when it
/// does, the state reached holds that secret; when it does not, any secret gives the same
/// outcome. The result never depends on it.
pub proof fn lemma_decrypt_secret_unused(s: SessionView, m: MessageView, ad: Seq<u8>, fresh: Seq<u8>, other: Seq<u8>)
    ensures
        ratchets_to(s, m) is Some ==> decrypt_attempt(s, m, ad, fresh).0.local_secret == fresh,
        ratchets_to(s, m) is None ==> decrypt_attempt(s, m, ad, fresh) == decrypt_attempt(s, m, ad, other),
        decrypt_attempt(s, m, ad, fresh).1 == decrypt_attempt(s, m, ad, other).1,
{
    if find_skipped(s.skipped, m.header) is None {
        match decrypt_header(s, m.header) {
            Err(_) => {},
            Ok((h, hk)) => {
                if skipped_position(s.skipped, hk, h.message_number) is None && is_new_remote(s, h.dh_pub) {
                    let (s1, r1) = skip_step(s, h.prev_chain_length);
                    if r1 is Ok {
                        lemma_skip_step_keeps_secret(dh_step(s1, h.dh_pub, fresh), h.message_number);
                        lemma_in_chain_receiving_side(
                            dh_step(s1, h.dh_pub, fresh),
                            dh_step(s1, h.dh_pub, other),
                            m,
                            ad,
                            h.message_number,
                        );
                    }
                }
            },
        }
    }
}

/// Two states with the same receiving side.
pub open spec fn same_receiving_side(t1: SessionView, t2: SessionView) -> bool {
    &&& t1.recv_chain == t2.recv_chain
    &&& t1.recv_count == t2.recv_count
    &&& t1.skipped == t2.skipped
    &&& t1.header_key_recv == t2.header_key_recv
}

/// Skipping looks only at the receiving side, and changes nothing else.
proof fn lemma_skip_loop_receiving_side(t1: SessionView, t2: SessionView, hk: Seq<u8>, until: u64)
    requires
        same_receiving_side(t1, t2),
    ensures
        skip_loop(t1, hk, until).1 == skip_loop(t2, hk, until).1,
        same_receiving_side(skip_loop(t1, hk, until).0, skip_loop(t2, hk, until).0),
    decreases until - t1.recv_count,
{
    if t1.recv_count < until {
        if let Some(ck) = t1.recv_chain {
            if t1.skipped.len() < MAX_SKIPPED_KEYS {
                let sk = skipped_insert(t1.skipped, hk, t1.recv_count, chain_message_key(ck));
                let u1 = SessionView { recv_chain: Some(chain_next(ck)), skipped: sk, recv_count: (t1.recv_count + 1) as u64, ..t1 };
                let u2 = SessionView { recv_chain: Some(chain_next(ck)), skipped: sk, recv_count: (t2.recv_count + 1) as u64, ..t2 };
                lemma_skip_loop_receiving_side(u1, u2, hk, until);
            }
        }
    }
}

/// Decryption within a chain looks only at the receiving side.
proof fn lemma_in_chain_receiving_side(t1: SessionView, t2: SessionView, m: MessageView, ad: Seq<u8>, n: u64)
    requires
        same_receiving_side(t1, t2),
    ensures
        decrypt_in_chain(t1, m, ad, n).1 == decrypt_in_chain(t2, m, ad, n).1,
{
    if !(n > t1.recv_count + MAX_SKIP) && t1.recv_chain is Some {
        lemma_skip_loop_receiving_side(t1, t2, skip_header_key(t1), n);
    }
}

/// Skipping never changes the local ratchet secret.
pub proof fn lemma_skip_step_keeps_secret(s: SessionView, until: u64)
    ensures
        skip_step(s, until).0.local_secret == s.local_secret,
{
    if s.recv_chain is Some && !(until > s.recv_count + MAX_SKIP) {
        lemma_skip_loop_keeps_secret(s, skip_header_key(s), until);
    }
}

/// Skipping never changes the local ratchet secret.
pub proof fn lemma_skip_loop_keeps_secret(s: SessionView, hk: Seq<u8>, until: u64)
    ensures
        skip_loop(s, hk, until).0.local_secret == s.local_secret,
    decreases until - s.recv_count,
{
    if s.recv_count < until {
        if let Some(ck) = s.recv_chain {
            if s.skipped.len() < MAX_SKIPPED_KEYS {
                let s1 = SessionView { recv_chain: Some(chain_next(ck)), ..s };
                let s2 = SessionView {
                    skipped: skipped_insert(s.skipped, hk, s.recv_count, chain_message_key(ck)),
                    recv_count: (s.recv_count + 1) as u64,
                    ..s1
                };
                lemma_skip_loop_keeps_secret(s2, hk, until);
            }
        }
    }
}


/// A successful skip leaves the counter at most `MAX_SKIP` ahead.
pub proof fn lemma_skip_step_bound(s: SessionView, until: u64)
    ensures
        skip_step(s, until).1 is Ok ==> skip_step(s, until).0.recv_count <= s.recv_count + MAX_SKIP,
{
    if s.recv_chain is Some && !(until > s.recv_count + MAX_SKIP) {
        lemma_skip_loop_bound(s, skip_header_key(s), until);
    }
}

/// Skipping stops at the target counter.
pub proof fn lemma_skip_loop_bound(s: SessionView, hk: Seq<u8>, until: u64)
    ensures
        skip_loop(s, hk, until).0.recv_count <= if s.recv_count <= until { until } else { s.recv_count },
    decreases until - s.recv_count,
{
    if s.recv_count < until {
        if let Some(ck) = s.recv_chain {
            if s.skipped.len() < MAX_SKIPPED_KEYS {
                let s1 = SessionView { recv_chain: Some(chain_next(ck)), ..s };
                let s2 = SessionView {
                    skipped: skipped_insert(s.skipped, hk, s.recv_count, chain_message_key(ck)),
                    recv_count: (s.recv_count + 1) as u64,
                    ..s1
                };
                lemma_skip_loop_bound(s2, hk, until);
            }
        }
    }
}

} // verus!
