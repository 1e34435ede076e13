//! Double Ratchet session encryption.
//!
//! Implements the Signal Double Ratchet algorithm with header encryption: forward secrecy,
//! break-in recovery, and headers hidden from observers. Every operation is specified by the
//! model in `ratchet_model`: the state as plain values and what each operation does to it.
use vstd::prelude::*;

use crate::crypto::aead::{
    AeadError, EncryptedMessage, KeyMaterial, MessageKey, decrypt_with_aad, encrypt_with_aad, hkdf_derive,
    hkdf_sha256, key_at, opt_bytes, u32_to_be_bytes, u64_from_be_bytes, u64_to_be_bytes,
};
use crate::crypto::dh::{dh_agrees, x25519_diffie_hellman, x25519_public, x25519_random_secret};
use crate::crypto::ratchet_model::{
    MAX_SKIP, SessionView, decrypted, lemma_skip_step_bound, is_new_remote, lemma_decrypt_secret_unused, decrypt_header, dh_step, skip_header_key, skip_loop, skip_step, try_header_key, encrypt_step, encrypted, init_receiver_state, init_sender_state, payload_aad,
    HeaderView, MAX_SKIPPED_KEYS, MessageView, SealedView, SkippedEntry, chain_message_key,
    chain_next, entry_is, header_bytes, info_chain, info_init_hkr, info_init_hks, info_init_rk,
    info_message, info_root, parse_header, root_chain, root_header, root_next, skipped_insert,
    skipped_position, skipped_store_ok, lemma_insert_keeps_store, lemma_remove_keeps_store,
    find_skipped, lemma_find_skipped_found, entry_opens_header, decrypt_attempt, ratchets_to,
};

verus! {

// Errors

/// Errors of a ratchet session.
#[derive(Debug, Clone, Copy, PartialEq, Eq)]
pub enum RatchetError {
    /// Deriving a key with HKDF failed.
    HkdfExpand,
    /// The AEAD layer refused to encrypt or failed to authenticate.
    Aead(AeadError),
    /// There is no sending chain yet: the responder must receive a message first.
    SendChainNotInitialized,
    /// There is no receiving chain yet: no message has been received.
    RecvChainNotInitialized,
    /// A Diffie-Hellman public key was invalid.
    InvalidDhKey,
    /// A message is further ahead than `MAX_SKIP` messages (the distance is given).
    TooManySkipped(u64),
    /// The store of skipped message keys is full.
    SkippedKeysFull,
    /// No known header key could decrypt the incoming header: the message is from an unknown
    /// session, or it has been corrupted in transit.
    HeaderDecryptionFailed,
}

// RatchetMessage

/// An encrypted Double Ratchet message: encrypted header and AEAD payload.
///
/// The header is encrypted with the sender's header key, hiding the sender's ratchet public
/// key and counters. The payload is bound to the header ciphertext as associated data, so
/// any tampering, substituting a different header included, is detected on decryption.
#[derive(Debug, Clone)]
pub struct RatchetMessage {
    pub encrypted_header: EncryptedMessage,
    pub payload: EncryptedMessage,
}

pub open spec fn sealed_view(m: EncryptedMessage) -> SealedView {
    SealedView { nonce: m.nonce, ciphertext: m.ciphertext@ }
}

impl View for RatchetMessage {
    type V = MessageView;

    open spec fn view(&self) -> MessageView {
        MessageView { header: sealed_view(self.encrypted_header), payload: sealed_view(self.payload) }
    }
}

pub open spec fn message_result_view(r: Result<RatchetMessage, RatchetError>) -> Result<MessageView, RatchetError> {
    match r {
        Ok(m) => Ok(m@),
        Err(e) => Err(e),
    }
}

pub open spec fn bytes_result_view(r: Result<Vec<u8>, RatchetError>) -> Result<Seq<u8>, RatchetError> {
    match r {
        Ok(p) => Ok(p@),
        Err(e) => Err(e),
    }
}

// Labels

fn info_root_bytes() -> (l: [u8; 13])
    ensures
        l@ == info_root(),
{
    let l: [u8; 13] = [99, 111, 110, 97, 110, 45, 118, 49, 45, 114, 111, 111, 116];
    assert(l@ =~= info_root());
    l
}

fn info_chain_bytes() -> (l: [u8; 14])
    ensures
        l@ == info_chain(),
{
    let l: [u8; 14] = [99, 111, 110, 97, 110, 45, 118, 49, 45, 99, 104, 97, 105, 110];
    assert(l@ =~= info_chain());
    l
}

fn info_message_bytes() -> (l: [u8; 16])
    ensures
        l@ == info_message(),
{
    let l: [u8; 16] = [99, 111, 110, 97, 110, 45, 118, 49, 45, 109, 101, 115, 115, 97, 103, 101];
    assert(l@ =~= info_message());
    l
}

fn info_init_rk_bytes() -> (l: [u8; 16])
    ensures
        l@ == info_init_rk(),
{
    let l: [u8; 16] = [99, 111, 110, 97, 110, 45, 118, 49, 45, 105, 110, 105, 116, 45, 114, 107];
    assert(l@ =~= info_init_rk());
    l
}

fn info_init_hks_bytes() -> (l: [u8; 17])
    ensures
        l@ == info_init_hks(),
{
    let l: [u8; 17] = [99, 111, 110, 97, 110, 45, 118, 49, 45, 105, 110, 105, 116, 45, 104, 107, 115];
    assert(l@ =~= info_init_hks());
    l
}

fn info_init_hkr_bytes() -> (l: [u8; 17])
    ensures
        l@ == info_init_hkr(),
{
    let l: [u8; 17] = [99, 111, 110, 97, 110, 45, 118, 49, 45, 105, 110, 105, 116, 45, 104, 107, 114];
    assert(l@ =~= info_init_hkr());
    l
}

/// Whether two keys hold the same bytes.
fn key_eq(a: &KeyMaterial, b: &KeyMaterial) -> (r: bool)
    ensures
        r == (a@ == b@),
{
    let mut i: usize = 0;
    while i < 32
        invariant
            i <= 32,
            a@.len() == 32,
            b@.len() == 32,
            forall|j: int| 0 <= j < i ==> a@[j] == b@[j],
        decreases 32 - i,
    {
        if a[i] != b[i] {
            return false;
        }
        i = i + 1;
    }
    assert(a@ =~= b@);
    true
}

/// A 32-byte HKDF output as key material.
fn derive_key(ikm: &[u8], salt: Option<&[u8]>, info: &[u8]) -> (out: Result<KeyMaterial, RatchetError>)
    ensures
        out matches Ok(k) && k@ == hkdf_sha256(opt_bytes(salt), ikm@, info@, 32),
{
    match hkdf_derive(ikm, salt, info, 32) {
        Ok(okm) => {
            let k = key_at(okm.as_slice(), 0);
            assert(okm@.subrange(0, 32) =~= okm@);
            Ok(k)
        },
        Err(_) => Err(RatchetError::HkdfExpand),
    }
}

// HeaderKey

/// A key that encrypts or decrypts ratchet message headers.
///
/// Header keys rotate on every DH ratchet step. The current key handles headers of the
/// active chain; the next key is derived ahead so the receiver can tell which DH epoch an
/// incoming message belongs to before decrypting its payload.
#[derive(Clone, Copy)]
struct HeaderKey(KeyMaterial);

impl HeaderKey {
    fn from_bytes(bytes: KeyMaterial) -> (hk: Self)
        ensures
            hk.0 == bytes,
    {
        Self(bytes)
    }

    fn as_message_key(&self) -> (mk: MessageKey)
        ensures
            mk.bytes() == self.0@,
    {
        MessageKey::from_bytes(self.0)
    }
}

spec fn header_key_view(hk: Option<HeaderKey>) -> Option<Seq<u8>> {
    match hk {
        Some(k) => Some(k.0@),
        None => None,
    }
}

// ChainKey: KDF_CK

#[derive(Clone, Copy)]
struct ChainKey(KeyMaterial);

impl ChainKey {
    fn from_bytes(bytes: KeyMaterial) -> (ck: Self)
        ensures
            ck.0 == bytes,
    {
        Self(bytes)
    }

    /// Advances the symmetric-key ratchet one step: returns the message key and replaces the
    /// chain key with its successor. Two HKDF invocations with different `info` labels give
    /// two independent outputs from the same input key.
    fn advance(&mut self) -> (r: Result<MessageKey, RatchetError>)
        ensures
            r matches Ok(mk) && mk.bytes() == chain_message_key(old(self).0@),
            final(self).0@ == chain_next(old(self).0@),
    {
        let info_message = info_message_bytes();
        let info_chain = info_chain_bytes();
        let msg_bytes = match derive_key(&self.0, None, &info_message) {
            Ok(k) => k,
            Err(e) => return Err(e),
        };
        let next_bytes = match derive_key(&self.0, None, &info_chain) {
            Ok(k) => k,
            Err(e) => return Err(e),
        };
        self.0 = next_bytes;
        Ok(MessageKey::from_bytes(msg_bytes))
    }
}

spec fn chain_key_view(ck: Option<ChainKey>) -> Option<Seq<u8>> {
    match ck {
        Some(k) => Some(k.0@),
        None => None,
    }
}

// RootKey: KDF_RK

#[derive(Clone, Copy)]
struct RootKey(KeyMaterial);

impl RootKey {
    fn from_bytes(bytes: KeyMaterial) -> (rk: Self)
        ensures
            rk.0 == bytes,
    {
        Self(bytes)
    }

    /// Advances the root chain with a fresh DH output, returning the new chain key and the
    /// next header key for that direction.
    ///
    /// Output layout (96 bytes): new root key, new chain key, next header key.
    fn advance(&mut self, dh_output: &KeyMaterial) -> (r: Result<(ChainKey, HeaderKey), RatchetError>)
        ensures
            r matches Ok((ck, hk)) && ck.0@ == root_chain(old(self).0@, dh_output@) && hk.0@
                == root_header(old(self).0@, dh_output@),
            final(self).0@ == root_next(old(self).0@, dh_output@),
    {
        let info = info_root_bytes();
        let material = match hkdf_derive(dh_output, Some(&self.0), &info, 96) {
            Ok(m) => m,
            Err(_) => return Err(RatchetError::HkdfExpand),
        };
        self.0 = key_at(material.as_slice(), 0);
        let chain_key = ChainKey::from_bytes(key_at(material.as_slice(), 32));
        let next_header_key = HeaderKey::from_bytes(key_at(material.as_slice(), 64));
        Ok((chain_key, next_header_key))
    }
}

// RatchetHeader

/// The plaintext contents of a ratchet message header.
///
/// It is never transmitted as it is: it is always encoded and encrypted before being placed
/// in a [`RatchetMessage`].
#[derive(Debug, Clone, PartialEq, Eq)]
pub struct RatchetHeader {
    pub dh_pub: KeyMaterial,
    pub prev_chain_length: u64,
    pub message_number: u64,
}

impl View for RatchetHeader {
    type V = HeaderView;

    open spec fn view(&self) -> HeaderView {
        HeaderView {
            dh_pub: self.dh_pub@,
            prev_chain_length: self.prev_chain_length,
            message_number: self.message_number,
        }
    }
}

impl RatchetHeader {
    pub fn new(dh_pub: KeyMaterial, prev_chain_length: u64, message_number: u64) -> (h: Self)
        ensures
            h.dh_pub == dh_pub,
            h.prev_chain_length == prev_chain_length,
            h.message_number == message_number,
    {
        Self { dh_pub, prev_chain_length, message_number }
    }

    /// Encodes the header as 48 bytes: the public key (32), the previous chain length
    /// (8, big-endian) and the message number (8, big-endian). Fixed-width fields make the
    /// encoding unambiguous without a length prefix.
    pub fn to_bytes(&self) -> (buf: [u8; 48])
        ensures
            buf@ == header_bytes(self@),
    {
        let mut buf = [0u8; 48];
        let mut i: usize = 0;
        while i < 32
            invariant
                i <= 32,
                buf@.len() == 48,
                self.dh_pub@.len() == 32,
                forall|j: int| 0 <= j < i ==> buf@[j] == self.dh_pub@[j],
            decreases 32 - i,
        {
            buf[i] = self.dh_pub[i];
            i = i + 1;
        }
        let pcl = u64_to_be_bytes(self.prev_chain_length);
        let num = u64_to_be_bytes(self.message_number);
        let mut k: usize = 0;
        while k < 8
            invariant
                k <= 8,
                buf@.len() == 48,
                pcl@.len() == 8,
                num@.len() == 8,
                self.dh_pub@.len() == 32,
                forall|j: int| 0 <= j < 32 ==> buf@[j] == self.dh_pub@[j],
                forall|j: int| 0 <= j < k ==> buf@[32 + j] == pcl@[j] && buf@[40 + j] == num@[j],
            decreases 8 - k,
        {
            buf[32 + k] = pcl[k];
            buf[40 + k] = num[k];
            k = k + 1;
        }
        assert(buf@ =~= header_bytes(self@));
        buf
    }

    /// Decodes a header from exactly 48 bytes.
    pub fn from_bytes(bytes: &[u8]) -> (h: Option<Self>)
        ensures
            h is Some <==> parse_header(bytes@) is Some,
            h matches Some(h) ==> parse_header(bytes@) == Some(h@),
    {
        if bytes.len() != 48 {
            return None;
        }
        let dh_pub = key_at(bytes, 0);
        let prev_chain_length = u64_from_be_bytes(bytes, 32);
        let message_number = u64_from_be_bytes(bytes, 40);
        Some(Self { dh_pub, prev_chain_length, message_number })
    }
}

// Skipped message keys, indexed by (header key, message number): the sender's public key is
// encrypted in the header, so the header key stands for its epoch.

#[derive(Clone, Copy)]
struct SkippedKey {
    header_key: KeyMaterial,
    message_number: u64,
    message_key: MessageKey,
}

spec fn skipped_entry_view(e: SkippedKey) -> SkippedEntry {
    (e.header_key@, e.message_number, e.message_key.bytes())
}

spec fn entries_view(v: Seq<SkippedKey>) -> Seq<SkippedEntry> {
    v.map_values(|e: SkippedKey| skipped_entry_view(e))
}

/// The store of skipped message keys: at most `MAX_SKIPPED_KEYS` keys, no two for the same
/// header key and message number.
struct SkippedKeys(Vec<SkippedKey>);

impl View for SkippedKeys {
    type V = Seq<SkippedEntry>;

    closed spec fn view(&self) -> Seq<SkippedEntry> {
        entries_view(self.0@)
    }
}

impl SkippedKeys {
    #[verifier::type_invariant]
    spec fn inv(self) -> bool {
        skipped_store_ok(self@)
    }

    fn new() -> (s: Self)
        ensures
            s@ == Seq::<SkippedEntry>::empty(),
    {
        assert(entries_view(Seq::<SkippedKey>::empty()) =~= Seq::<SkippedEntry>::empty());
        let s = Self(Vec::new());
        s
    }

    /// A store with the same entries.
    fn copy(&self) -> (c: Self)
        ensures
            c@ == self@,
    {
        proof {
            use_type_invariant(self);
        }
        let n = self.0.len();
        let mut v: Vec<SkippedKey> = Vec::new();
        let mut i: usize = 0;
        while i < n
            invariant
                i <= n,
                n == self.0@.len(),
                v@ =~= self.0@.subrange(0, i as int),
            decreases n - i,
        {
            v.push(self.0[i]);
            i = i + 1;
        }
        assert(v@ =~= self.0@);
        Self(v)
    }

    /// The first position holding (`header_key`, `message_number`), if any.
    fn position(&self, header_key: &KeyMaterial, message_number: u64) -> (p: Option<usize>)
        ensures
            match p {
                Some(i) => skipped_position(self@, header_key@, message_number) == Some(i as int),
                None => skipped_position(self@, header_key@, message_number) is None,
            },
            p matches Some(i) ==> i < self.0@.len(),
            self@.len() == self.0@.len(),
    {
        let n = self.0.len();
        let ghost sk = self@;
        let mut i: usize = 0;
        while i < n
            invariant
                i <= n,
                n == self.0@.len(),
                sk == self@,
                sk.len() == n,
                forall|j: int| 0 <= j < i ==> !entry_is(#[trigger] sk[j], header_key@, message_number),
            decreases n - i,
        {
            let e = &self.0[i];
            assert(sk[i as int] == skipped_entry_view(self.0@[i as int]));
            if e.message_number == message_number && key_eq(&e.header_key, header_key) {
                assert(entry_is(sk[i as int], header_key@, message_number));
                let ghost c = choose|k: int|
                    0 <= k < sk.len() && entry_is(sk[k], header_key@, message_number) && forall|j: int|
                        0 <= j < k ==> !entry_is(sk[j], header_key@, message_number);
                assert(c == i) by {
                    if c < i {
                        assert(!entry_is(sk[c], header_key@, message_number));
                    }
                    if i < c {
                        assert(!entry_is(sk[i as int], header_key@, message_number));
                    }
                }
                return Some(i);
            }
            i = i + 1;
        }
        None
    }

    /// The first position whose entry is for the message with this encrypted header: its
    /// header key opens the header, to its message number.
    fn find_opening(&self, encrypted_header: &EncryptedMessage) -> (p: Option<usize>)
        ensures
            match p {
                Some(i) => find_skipped(self@, sealed_view(*encrypted_header)) == Some(i as int),
                None => find_skipped(self@, sealed_view(*encrypted_header)) is None,
            },
            p matches Some(i) ==> i < self.0@.len(),
            self@.len() == self.0@.len(),
    {
        let n = self.0.len();
        let ghost sk = self@;
        let ghost hv = sealed_view(*encrypted_header);
        let mut i: usize = 0;
        while i < n
            invariant
                i <= n,
                n == self.0@.len(),
                sk == self@,
                sk.len() == n,
                hv == sealed_view(*encrypted_header),
                forall|j: int| 0 <= j < i ==> !entry_opens_header(#[trigger] sk[j], hv),
            decreases n - i,
        {
            let e = self.0[i];
            assert(sk[i as int] == skipped_entry_view(self.0@[i as int]));
            let hk = Some(HeaderKey::from_bytes(e.header_key));
            match RatchetSession::try_header_key(&hk, encrypted_header) {
                Some((header, _)) => {
                    if header.message_number == e.message_number {
                        assert(entry_opens_header(sk[i as int], hv));
                        proof {
                            lemma_find_skipped_found(sk, hv);
                        }
                        let ghost q = find_skipped(sk, hv)->0;
                        assert(q == i) by {
                            if q < i {
                                assert(!entry_opens_header(sk[q], hv));
                            }
                            if i < q {
                                assert(!entry_opens_header(sk[i as int], hv));
                            }
                        }
                        return Some(i);
                    }
                },
                None => {},
            }
            i = i + 1;
        }
        proof {
            lemma_find_skipped_found(sk, hv);
        }
        None
    }

    /// Removes the entry at position `i` and returns its message key.
    fn take_at(&mut self, i: usize) -> (mk: MessageKey)
        requires
            i < old(self)@.len(),
        ensures
            mk.bytes() == old(self)@[i as int].2,
            final(self)@ == old(self)@.remove(i as int),
    {
        proof {
            use_type_invariant(&*self);
            lemma_remove_keeps_store(old(self)@, i as int);
        }
        let mut v: Vec<SkippedKey> = Vec::new();
        std::mem::swap(&mut v, &mut self.0);
        let ghost before = v@;
        assert(entries_view(before) == old(self)@);
        let e = v.remove(i);
        assert(entries_view(v@) =~= old(self)@.remove(i as int));
        self.0 = v;
        e.message_key
    }

    fn get_and_remove(&mut self, header_key: &KeyMaterial, message_number: u64) -> (r: Option<MessageKey>)
        ensures
            match skipped_position(old(self)@, header_key@, message_number) {
                Some(i) => r matches Some(mk) && mk.bytes() == old(self)@[i].2 && final(self)@ == old(
                    self,
                )@.remove(i),
                None => r is None && final(self)@ == old(self)@,
            },
    {
        match self.position(header_key, message_number) {
            Some(i) => Some(self.take_at(i)),
            None => None,
        }
    }

    fn insert(&mut self, header_key: KeyMaterial, message_number: u64, message_key: MessageKey) -> (r: Result<(), RatchetError>)
        ensures
            old(self)@.len() >= MAX_SKIPPED_KEYS ==> r == Err::<(), RatchetError>(
                RatchetError::SkippedKeysFull,
            ) && final(self)@ == old(self)@,
            old(self)@.len() < MAX_SKIPPED_KEYS ==> r is Ok && final(self)@ == skipped_insert(
                old(self)@,
                header_key@,
                message_number,
                message_key.bytes(),
            ),
    {
        if self.0.len() >= MAX_SKIPPED_KEYS {
            return Err(RatchetError::SkippedKeysFull);
        }
        proof {
            use_type_invariant(&*self);
            lemma_insert_keeps_store(old(self)@, header_key@, message_number, message_key.bytes());
        }
        let entry = SkippedKey { header_key, message_number, message_key };
        let found = self.position(&header_key, message_number);
        let mut v: Vec<SkippedKey> = Vec::new();
        std::mem::swap(&mut v, &mut self.0);
        assert(entries_view(v@) == old(self)@);
        match found {
            Some(i) => {
                v.set(i, entry);
            },
            None => {
                v.push(entry);
            },
        }
        assert(entries_view(v@) =~= skipped_insert(old(self)@, header_key@, message_number, message_key.bytes()));
        self.0 = v;
        Ok(())
    }

    fn len(&self) -> (n: usize)
        ensures
            n == self@.len(),
            n <= MAX_SKIPPED_KEYS,
    {
        proof {
            use_type_invariant(self);
        }
        self.0.len()
    }
}


/// Full Double Ratchet session state.
///
/// # Initialization
///
/// Both parties first establish a shared secret with a key agreement protocol. The resulting
/// 32 bytes are passed to `init_sender` / `init_receiver`:
///
/// - the initiator calls [`RatchetSession::init_sender`] with the shared secret and the
///   responder's ratchet public key;
/// - the responder calls [`RatchetSession::init_receiver`] with the shared secret and its own
///   ratchet secret.
pub struct RatchetSession {
    root_key: RootKey,
    send_chain: Option<ChainKey>,
    recv_chain: Option<ChainKey>,
    header_key_send: Option<HeaderKey>,
    header_key_recv: Option<HeaderKey>,
    next_header_key_send: Option<HeaderKey>,
    next_header_key_recv: Option<HeaderKey>,
    local_dh_secret: KeyMaterial,
    local_dh_pub: KeyMaterial,
    remote_dh_pub: Option<KeyMaterial>,
    send_count: u64,
    recv_count: u64,
    prev_chain_length: u64,
    skipped: SkippedKeys,
}

pub open spec fn opt_key_view(k: Option<KeyMaterial>) -> Option<Seq<u8>> {
    match k {
        Some(k) => Some(k@),
        None => None,
    }
}

impl View for RatchetSession {
    type V = SessionView;

    closed spec fn view(&self) -> SessionView {
        SessionView {
            root_key: self.root_key.0@,
            send_chain: chain_key_view(self.send_chain),
            recv_chain: chain_key_view(self.recv_chain),
            header_key_send: header_key_view(self.header_key_send),
            header_key_recv: header_key_view(self.header_key_recv),
            next_header_key_send: header_key_view(self.next_header_key_send),
            next_header_key_recv: header_key_view(self.next_header_key_recv),
            local_secret: self.local_dh_secret@,
            local_public: self.local_dh_pub@,
            remote_public: opt_key_view(self.remote_dh_pub),
            send_count: self.send_count,
            recv_count: self.recv_count,
            prev_chain_length: self.prev_chain_length,
            skipped: self.skipped@,
        }
    }
}

impl RatchetSession {
    /// The initiator's session, with `local_secret` as its first ratchet secret.
    pub fn init_sender_with_secret(
        shared_secret: &KeyMaterial,
        remote_dh_pub_bytes: &KeyMaterial,
        local_secret: KeyMaterial,
    ) -> (r: Result<Self, RatchetError>)
        ensures
            r matches Ok(s) && s@ == init_sender_state(shared_secret@, remote_dh_pub_bytes@, local_secret@),
            dh_agrees(local_secret@, remote_dh_pub_bytes@),
    {
        let info_rk = info_init_rk_bytes();
        let info_hks = info_init_hks_bytes();
        let info_hkr = info_init_hkr_bytes();
        // Initial keys derived from the shared secret of the key agreement.
        let root_key_bytes = match derive_key(shared_secret, None, &info_rk) {
            Ok(k) => k,
            Err(e) => return Err(e),
        };
        let header_key_send_bytes = match derive_key(shared_secret, None, &info_hks) {
            Ok(k) => k,
            Err(e) => return Err(e),
        };
        let header_key_recv_bytes = match derive_key(shared_secret, None, &info_hkr) {
            Ok(k) => k,
            Err(e) => return Err(e),
        };
        let mut root_key = RootKey::from_bytes(root_key_bytes);
        let local_public = x25519_public(&local_secret);
        // The first DH output gives the initial sending chain.
        let dh_output = x25519_diffie_hellman(&local_secret, remote_dh_pub_bytes);
        let (send_chain, next_header_key_send) = match root_key.advance(&dh_output) {
            Ok(r) => r,
            Err(e) => return Err(e),
        };
        let s = Self {
            root_key,
            send_chain: Some(send_chain),
            recv_chain: None,
            header_key_send: Some(HeaderKey::from_bytes(header_key_send_bytes)),
            header_key_recv: None,
            next_header_key_send: Some(next_header_key_send),
            next_header_key_recv: Some(HeaderKey::from_bytes(header_key_recv_bytes)),
            local_dh_secret: local_secret,
            local_dh_pub: local_public,
            remote_dh_pub: Some(*remote_dh_pub_bytes),
            send_count: 0,
            recv_count: 0,
            prev_chain_length: 0,
            skipped: SkippedKeys::new(),
        };
        assert(s@ == init_sender_state(shared_secret@, remote_dh_pub_bytes@, local_secret@));
        Ok(s)
    }

    /// The initiator's session for the shared secret and the responder's ratchet public key,
    /// with a fresh random ratchet secret.
    pub fn init_sender(shared_secret: &KeyMaterial, remote_dh_pub_bytes: &KeyMaterial) -> (r: Result<Self, RatchetError>)
        ensures
            r matches Ok(s) && s@ == init_sender_state(shared_secret@, remote_dh_pub_bytes@, s@.local_secret)
                && s@.local_secret.len() == 32 && dh_agrees(s@.local_secret, remote_dh_pub_bytes@),
    {
        let local_secret = x25519_random_secret();
        Self::init_sender_with_secret(shared_secret, remote_dh_pub_bytes, local_secret)
    }

    /// The responder's session for the shared secret and its own ratchet secret. The header
    /// key labels are swapped with respect to the initiator: what the initiator sends with,
    /// the responder receives with.
    pub fn init_receiver(shared_secret: &KeyMaterial, local_dh_secret: KeyMaterial) -> (r: Result<Self, RatchetError>)
        ensures
            r matches Ok(s) && s@ == init_receiver_state(shared_secret@, local_dh_secret@),
    {
        let info_rk = info_init_rk_bytes();
        let info_hks = info_init_hks_bytes();
        let info_hkr = info_init_hkr_bytes();
        let root_key_bytes = match derive_key(shared_secret, None, &info_rk) {
            Ok(k) => k,
            Err(e) => return Err(e),
        };
        let header_key_send_bytes = match derive_key(shared_secret, None, &info_hkr) {
            Ok(k) => k,
            Err(e) => return Err(e),
        };
        let header_key_recv_bytes = match derive_key(shared_secret, None, &info_hks) {
            Ok(k) => k,
            Err(e) => return Err(e),
        };
        let local_public = x25519_public(&local_dh_secret);
        let s = Self {
            root_key: RootKey::from_bytes(root_key_bytes),
            send_chain: None,
            recv_chain: None,
            header_key_send: Some(HeaderKey::from_bytes(header_key_send_bytes)),
            header_key_recv: None,
            next_header_key_send: None,
            next_header_key_recv: Some(HeaderKey::from_bytes(header_key_recv_bytes)),
            local_dh_secret,
            local_dh_pub: local_public,
            remote_dh_pub: None,
            send_count: 0,
            recv_count: 0,
            prev_chain_length: 0,
            skipped: SkippedKeys::new(),
        };
        assert(s@ == init_receiver_state(shared_secret@, local_dh_secret@));
        Ok(s)
    }

    /// The current local ratchet public key.
    pub fn local_public_key(&self) -> (k: KeyMaterial)
        ensures
            k@ == self@.local_public,
    {
        self.local_dh_pub
    }

    /// Encrypts a plaintext message, producing a [`RatchetMessage`] with an encrypted header
    /// and an AEAD-encrypted payload.
    ///
    /// Steps:
    /// 1. Advance the sending chain to derive a unique message key.
    /// 2. Build the header (local DH public key, previous chain length, message number).
    /// 3. Encrypt the header with the current sending header key.
    /// 4. Encrypt the payload with the message key, bound to the associated data and header.
    pub fn encrypt(&mut self, plaintext: &[u8], associated_data: &[u8]) -> (r: Result<RatchetMessage, RatchetError>)
        requires
            old(self)@.send_count < u64::MAX,
        ensures
            encrypted(old(self)@, plaintext@, associated_data@, final(self)@, message_result_view(r)),
    {
        let ghost s0 = self@;
        // Step 1: advance the symmetric-key ratchet for a fresh message key.
        let message_key = match self.send_chain {
            Some(ref mut send_chain) => match send_chain.advance() {
                Ok(mk) => mk,
                Err(e) => return Err(e),
            },
            None => return Err(RatchetError::SendChainNotInitialized),
        };
        // Step 2: the plaintext header with the current ratchet state.
        let header = RatchetHeader::new(self.local_dh_pub, self.prev_chain_length, self.send_count);
        // Step 3: encrypt the header so an observer sees neither the DH public key nor the counters.
        let header_key = match self.header_key_send {
            Some(ref hk) => hk.as_message_key(),
            None => return Err(RatchetError::SendChainNotInitialized),
        };
        let header_bytes = header.to_bytes();
        let empty: [u8; 0] = [];
        let encrypted_header = match encrypt_with_aad(&header_key, self.send_count, &header_bytes, &empty) {
            Ok(m) => m,
            Err(e) => return Err(RatchetError::Aead(e)),
        };
        // Step 4: encrypt the payload, bound to the associated data and the encrypted header.
        let aad = Self::build_aad(associated_data, &encrypted_header);
        let payload = match encrypt_with_aad(&message_key, self.send_count, plaintext, aad.as_slice()) {
            Ok(m) => m,
            Err(e) => return Err(RatchetError::Aead(e)),
        };
        self.send_count = self.send_count + 1;
        let msg = RatchetMessage { encrypted_header, payload };
        assert(empty@ =~= Seq::<u8>::empty());
        assert(message_result_view(Ok(msg)) == encrypt_step(s0, plaintext@, associated_data@).1);
        Ok(msg)
    }

    /// Decrypts an incoming [`RatchetMessage`], advancing the ratchet as needed, with
    /// `new_secret` as the new local ratchet secret should a DH ratchet step happen.
    ///
    /// Steps:
    /// 1. If the header key of a stored skipped key opens the header to that key's message
    ///    number, the message arrived late: decrypt it with the stored key.
    /// 2. Otherwise trial-decrypt the header with the current and next header keys.
    /// 3. If the header carries a new DH public key, skip the pending message keys of the old
    ///    chain and perform a DH ratchet step.
    /// 4. Skip message keys up to the message number.
    /// 5. Advance the receiving chain and decrypt the payload.
    ///
    /// A failed decryption leaves the session as it was.
    pub fn decrypt_with_secret(&mut self, msg: &RatchetMessage, associated_data: &[u8], new_secret: KeyMaterial) -> (r: Result<Vec<u8>, RatchetError>)
        requires
            old(self)@.recv_count < u64::MAX - MAX_SKIP,
        ensures
            decrypted(old(self)@, msg@, associated_data@, new_secret@, final(self)@, bytes_result_view(r)),
    {
        let mut work = self.copy();
        let r = work.decrypt_attempt(msg, associated_data, new_secret);
        if r.is_ok() {
            *self = work;
        }
        r
    }

    /// A copy of the session.
    fn copy(&self) -> (c: Self)
        ensures
            c@ == self@,
    {
        Self {
            root_key: self.root_key,
            send_chain: self.send_chain,
            recv_chain: self.recv_chain,
            header_key_send: self.header_key_send,
            header_key_recv: self.header_key_recv,
            next_header_key_send: self.next_header_key_send,
            next_header_key_recv: self.next_header_key_recv,
            local_dh_secret: self.local_dh_secret,
            local_dh_pub: self.local_dh_pub,
            remote_dh_pub: self.remote_dh_pub,
            send_count: self.send_count,
            recv_count: self.recv_count,
            prev_chain_length: self.prev_chain_length,
            skipped: self.skipped.copy(),
        }
    }

    /// One attempt at decrypting `msg`: first with a stored key whose header key opens the
    /// header (a message that arrives late), then with the current or next receiving header
    /// key. The session it leaves is kept only when the attempt succeeds.
    fn decrypt_attempt(&mut self, msg: &RatchetMessage, associated_data: &[u8], new_secret: KeyMaterial) -> (r: Result<Vec<u8>, RatchetError>)
        requires
            old(self)@.recv_count < u64::MAX - MAX_SKIP,
        ensures
            (final(self)@, bytes_result_view(r)) == decrypt_attempt(old(self)@, msg@, associated_data@, new_secret@),
            ratchets_to(old(self)@, msg@) matches Some(rp) ==> dh_agrees(new_secret@, rp),
    {
        let ghost s0 = self@;
        let aad = Self::build_aad(associated_data, &msg.encrypted_header);
        // A stored key whose header key opens the header is for this message.
        match self.skipped.find_opening(&msg.encrypted_header) {
            Some(i) => {
                let message_key = self.skipped.take_at(i);
                return match decrypt_with_aad(&message_key, &msg.payload, aad.as_slice()) {
                    Ok(p) => Ok(p),
                    Err(e) => Err(RatchetError::Aead(e)),
                };
            },
            None => {},
        }
        // Step 1: decrypt the header with the current or the next header key.
        let (header, header_key_used) = match self.try_decrypt_header(&msg.encrypted_header) {
            Ok(found) => found,
            Err(e) => return Err(e),
        };

        // Step 2: a message key skipped earlier is used directly.
        match self.skipped.get_and_remove(&header_key_used, header.message_number) {
            Some(message_key) => {
                return match decrypt_with_aad(&message_key, &msg.payload, aad.as_slice()) {
                    Ok(p) => Ok(p),
                    Err(e) => Err(RatchetError::Aead(e)),
                };
            },
            None => {},
        }

        // Step 3: a new DH public key means the sender performed a DH ratchet step.
        let is_new_dh_key = match self.remote_dh_pub {
            Some(ref remote) => !key_eq(remote, &header.dh_pub),
            None => true,
        };
        assert(is_new_dh_key == is_new_remote(s0, header@.dh_pub));
        let ghost s2 = self@;
        if is_new_dh_key {
            // Skip what remains of the old receiving chain before ratcheting.
            match self.skip_message_keys(header.prev_chain_length) {
                Ok(()) => {},
                Err(e) => return Err(e),
            }
            match self.dh_ratchet_step(&header.dh_pub, new_secret) {
                Ok(()) => {},
                Err(e) => return Err(e),
            }
            proof {
                let s1 = skip_step(s0, header@.prev_chain_length).0;
                assert(self@ == dh_step(s1, header@.dh_pub, new_secret@));
            }
        }

        // Step 4: skip message keys up to the message number.
        let ghost s3 = self@;
        assert(self.recv_count <= MAX_SKIP || self.recv_count == s0.recv_count);
        match self.skip_message_keys(header.message_number) {
            Ok(()) => {},
            Err(e) => return Err(e),
        }
        proof {
            lemma_skip_step_bound(s3, header.message_number);
        }
        // Step 5: advance the receiving chain and decrypt the payload.
        let message_key = match self.recv_chain {
            Some(ref mut recv_chain) => match recv_chain.advance() {
                Ok(mk) => mk,
                Err(e) => return Err(e),
            },
            None => return Err(RatchetError::RecvChainNotInitialized),
        };
        self.recv_count = self.recv_count + 1;
        match decrypt_with_aad(&message_key, &msg.payload, aad.as_slice()) {
            Ok(p) => Ok(p),
            Err(e) => Err(RatchetError::Aead(e)),
        }
    }

    /// Decrypts an incoming [`RatchetMessage`], advancing the ratchet as needed; a DH ratchet
    /// step takes a fresh random ratchet secret. A failed decryption leaves the session as it
    /// was.
    pub fn decrypt(&mut self, msg: &RatchetMessage, associated_data: &[u8]) -> (r: Result<Vec<u8>, RatchetError>)
        requires
            old(self)@.recv_count < u64::MAX - MAX_SKIP,
        ensures
            decrypted(old(self)@, msg@, associated_data@, final(self)@.local_secret, final(self)@, bytes_result_view(r)),
    {
        let new_secret = x25519_random_secret();
        let r = self.decrypt_with_secret(msg, associated_data, new_secret);
        proof {
            lemma_decrypt_secret_unused(old(self)@, msg@, associated_data@, new_secret@, final(self)@.local_secret);
        }
        r
    }

    /// Trial decryption of `encrypted_header` with one header key.
    fn try_header_key(header_key: &Option<HeaderKey>, encrypted_header: &EncryptedMessage) -> (r: Option<(RatchetHeader, KeyMaterial)>)
        ensures
            match try_header_key(header_key_view(*header_key), sealed_view(*encrypted_header)) {
                Some((h, k)) => r matches Some((rh, rk)) && rh@ == h && rk@ == k,
                None => r is None,
            },
    {
        match header_key {
            Some(hk) => {
                let empty: [u8; 0] = [];
                assert(empty@ =~= Seq::<u8>::empty());
                match decrypt_with_aad(&hk.as_message_key(), encrypted_header, &empty) {
                    Ok(bytes) => match RatchetHeader::from_bytes(bytes.as_slice()) {
                        Some(header) => Some((header, hk.0)),
                        None => None,
                    },
                    Err(_) => None,
                }
            },
            None => None,
        }
    }

    /// Decrypts the header with the current, then the next receiving header key, and returns
    /// the header with the key that decrypted it.
    ///
    /// Trial decryption tells which DH epoch (current or next) an incoming message belongs
    /// to, without knowing the sender's ratchet state.
    fn try_decrypt_header(&self, encrypted_header: &EncryptedMessage) -> (r: Result<(RatchetHeader, KeyMaterial), RatchetError>)
        ensures
            match decrypt_header(self@, sealed_view(*encrypted_header)) {
                Ok((h, k)) => r matches Ok((rh, rk)) && rh@ == h && rk@ == k,
                Err(e) => r == Err::<(RatchetHeader, KeyMaterial), RatchetError>(e),
            },
    {
        match Self::try_header_key(&self.header_key_recv, encrypted_header) {
            Some(found) => return Ok(found),
            None => {},
        }
        match Self::try_header_key(&self.next_header_key_recv, encrypted_header) {
            Some(found) => Ok(found),
            None => Err(RatchetError::HeaderDecryptionFailed),
        }
    }

    /// A Diffie-Hellman ratchet step towards `remote_pub_bytes`, with `new_secret` as the new
    /// local ratchet secret: derives the new receiving chain from the current local secret,
    /// then the new sending chain from the new one.
    fn dh_ratchet_step(&mut self, remote_pub_bytes: &KeyMaterial, new_secret: KeyMaterial) -> (r: Result<(), RatchetError>)
        ensures
            r is Ok,
            final(self)@ == dh_step(old(self)@, remote_pub_bytes@, new_secret@),
            dh_agrees(new_secret@, remote_pub_bytes@),
    {
        // Save the sending chain length before switching directions.
        self.prev_chain_length = self.send_count;
        self.send_count = 0;
        self.recv_count = 0;
        self.remote_dh_pub = Some(*remote_pub_bytes);

        // Receiving direction: DH with the remote key, advance the root key.
        let dh_output = x25519_diffie_hellman(&self.local_dh_secret, remote_pub_bytes);
        let (recv_chain_key, new_next_header_key_recv) = match self.root_key.advance(&dh_output) {
            Ok(r) => r,
            Err(e) => return Err(e),
        };
        self.header_key_recv = self.next_header_key_recv.take();
        self.next_header_key_recv = Some(new_next_header_key_recv);
        self.recv_chain = Some(recv_chain_key);

        // Sending direction: the new DH key pair, advance the root key again.
        let new_public = x25519_public(&new_secret);
        if self.next_header_key_send.is_some() {
            self.header_key_send = self.next_header_key_send.take();
        }
        let dh_output_new = x25519_diffie_hellman(&new_secret, remote_pub_bytes);
        let (send_chain_key, new_next_header_key_send) = match self.root_key.advance(&dh_output_new) {
            Ok(r) => r,
            Err(e) => return Err(e),
        };
        self.next_header_key_send = Some(new_next_header_key_send);
        self.send_chain = Some(send_chain_key);

        self.local_dh_secret = new_secret;
        self.local_dh_pub = new_public;
        Ok(())
    }

    /// Advances the receiving chain to message number `until`, storing each derived message
    /// key for messages that arrive out of order, indexed by (header key, message number).
    fn skip_message_keys(&mut self, until: u64) -> (r: Result<(), RatchetError>)
        ensures
            (final(self)@, r) == skip_step(old(self)@, until),
    {
        if until > self.recv_count && until - self.recv_count > MAX_SKIP {
            return Err(RatchetError::TooManySkipped(until - self.recv_count));
        }
        if self.recv_chain.is_some() {
            let header_key: KeyMaterial = match self.header_key_recv {
                Some(ref hk) => hk.0,
                None => [0u8; 32],
            };
            assert(header_key@ =~= skip_header_key(old(self)@));
            let ghost target = skip_loop(old(self)@, header_key@, until);
            while self.recv_count < until
                invariant
                    skip_loop(self@, header_key@, until) == target,
                    target == skip_step(old(self)@, until),
                    self.recv_chain is Some,
                decreases until - self.recv_count,
            {
                let ghost prev = self@;
                let message_key = match self.recv_chain {
                    Some(ref mut recv_chain) => match recv_chain.advance() {
                        Ok(mk) => mk,
                        Err(e) => return Err(e),
                    },
                    None => return Err(RatchetError::RecvChainNotInitialized),
                };
                match self.skipped.insert(header_key, self.recv_count, message_key) {
                    Ok(()) => {},
                    Err(e) => {
                        assert(self@ == SessionView { recv_chain: Some(chain_next(prev.recv_chain->0)), ..prev });
                        assert(skip_loop(prev, header_key@, until) == (self@, Err::<(), RatchetError>(e)));
                        return Err(e);
                    },
                }
                self.recv_count = self.recv_count + 1;
            }
        }
        Ok(())
    }

    /// The associated data of the payload: the caller's associated data, prefixed with its
    /// length (4 bytes, big-endian), then the header's nonce (8 bytes, big-endian) and the
    /// header's ciphertext. This binds the payload to its header.
    fn build_aad(associated_data: &[u8], encrypted_header: &EncryptedMessage) -> (aad: Vec<u8>)
        ensures
            aad@ == payload_aad(associated_data@, sealed_view(*encrypted_header)),
    {
        let mut buffer: Vec<u8> = Vec::new();
        let len_bytes = u32_to_be_bytes(associated_data.len() as u32);
        buffer.extend_from_slice(&len_bytes);
        buffer.extend_from_slice(associated_data);
        let nonce_bytes = u64_to_be_bytes(encrypted_header.nonce);
        buffer.extend_from_slice(&nonce_bytes);
        buffer.extend_from_slice(encrypted_header.ciphertext.as_slice());
        assert(buffer@ =~= payload_aad(associated_data@, sealed_view(*encrypted_header)));
        buffer
    }

    /// Number of skipped message keys currently in the store.
    pub fn skipped_keys_count(&self) -> (n: usize)
        ensures
            n == self@.skipped.len(),
            n <= MAX_SKIPPED_KEYS,
    {
        self.skipped.len()
    }
}

} // verus!
