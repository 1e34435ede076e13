//! Operations of a peer connection: encryption under the shared secret of the key exchange,
//! the signed key exchange, and the framing of handshake messages.
use vstd::prelude::*;

use crate::crypto::aead::{
    AEAD_MAX_PLAINTEXT, AEAD_TAG_LEN, KeyMaterial, chacha20poly1305_decrypt, chacha20poly1305_encrypt,
    chacha20poly1305_open, chacha20poly1305_seal, hkdf_derive, hkdf_sha256, key_at,
};
use crate::crypto::dh::{dh_agrees, x25519_diffie_hellman, x25519_public, x25519_public_key, x25519_shared_secret};
use crate::constants::ENCRYPTION_INFO;
use crate::msg::{Msg, MsgView, lemma_msg_roundtrip, msg_bytes, parse_msg};
use vstd::string::is_ascii_spec_bytes;
use ed25519_dalek::{Signer, Verifier};

verus! {

/// The HKDF `info` label of the connection's encryption key, the bytes of [`ENCRYPTION_INFO`].
pub open spec fn encryption_info() -> Seq<u8> {
    seq![116u8, 111, 114, 45, 115, 101, 99, 114, 101, 116, 45, 99, 111, 110, 97, 110, 45, 115, 101, 99, 114, 101, 116]
}

/// The encryption key derived from a connection's shared secret.
pub open spec fn connection_key(shared_secret: Seq<u8>) -> Seq<u8> {
    hkdf_sha256(None, shared_secret, encryption_info(), 32)
}

/// Errors of connection encryption.
#[derive(Debug, Clone, Copy, PartialEq, Eq)]
pub enum OperationError {
    /// The encryption key could not be derived.
    KeyDerivation,
    /// The data was too long to encrypt.
    Encryption,
    /// The ciphertext did not authenticate.
    Decryption,
    /// The data was shorter than the 12-byte nonce in front of the ciphertext.
    NonceMissing,
}

/// Calls `rand::random::<[u8; 12]>()`: a nonce from the thread-local random generator, of
/// which nothing is known.
#[verifier::external_body]
fn random_nonce() -> (nonce: [u8; 12]) {
    rand::random::<[u8; 12]>()
}

fn derive_connection_key(shared_secret_key: &[u8; 32]) -> (k: Result<KeyMaterial, OperationError>)
    ensures
        k matches Ok(k) && k@ == connection_key(shared_secret_key@),
{
    let info = ENCRYPTION_INFO.as_bytes();
    proof {
        reveal_strlit("tor-secret-conan-secret");
        is_ascii_spec_bytes(ENCRYPTION_INFO);
    }
    assert(info@ =~= encryption_info());
    match hkdf_derive(shared_secret_key, None, info, 32) {
        Ok(okm) => {
            let k = key_at(okm.as_slice(), 0);
            assert(okm@.subrange(0, 32) =~= okm@);
            Ok(k)
        },
        Err(_) => Err(OperationError::KeyDerivation),
    }
}

/// Encrypts `data` under the key derived from the shared secret, with `nonce`: the nonce
/// followed by the ChaCha20-Poly1305 ciphertext.
pub fn encrypt_with_nonce(shared_secret_key: &[u8; 32], data: &[u8], nonce: [u8; 12]) -> (r: Result<Vec<u8>, OperationError>)
    ensures
        r is Ok <==> data@.len() < AEAD_MAX_PLAINTEXT,
        r matches Ok(c) ==> c@ == nonce@ + chacha20poly1305_seal(connection_key(shared_secret_key@), nonce@, data@, Seq::empty())
            && c@.len() == 12 + data@.len() + AEAD_TAG_LEN
            && chacha20poly1305_open(connection_key(shared_secret_key@), nonce@, c@.skip(12), Seq::empty()) == Some(data@),
        r matches Err(e) ==> e == OperationError::Encryption,
{
    let key = match derive_connection_key(shared_secret_key) {
        Ok(k) => k,
        Err(e) => return Err(e),
    };
    let empty: [u8; 0] = [];
    assert(empty@ =~= Seq::<u8>::empty());
    match chacha20poly1305_encrypt(&key, &nonce, data, &empty) {
        Ok(cipher_text) => {
            let mut out: Vec<u8> = Vec::new();
            out.extend_from_slice(&nonce);
            out.extend_from_slice(cipher_text.as_slice());
            assert(out@ =~= nonce@ + cipher_text@);
            assert(out@.skip(12) =~= cipher_text@);
            Ok(out)
        },
        Err(_) => Err(OperationError::Encryption),
    }
}

/// Encrypts a message (already turned to bytes) under the key derived from the shared
/// secret, with a fresh random nonce placed in front of the ciphertext.
pub fn encrypt(shared_secret_key: &[u8; 32], data: &[u8]) -> (r: Result<Vec<u8>, OperationError>)
    ensures
        r is Ok <==> data@.len() < AEAD_MAX_PLAINTEXT,
        r matches Ok(c) ==> c@.len() == 12 + data@.len() + AEAD_TAG_LEN && c@ == c@.take(12) + chacha20poly1305_seal(connection_key(shared_secret_key@), c@.take(12), data@, Seq::empty())
            && decryption(shared_secret_key@, c@) == Ok::<Seq<u8>, OperationError>(data@),
        r matches Err(e) ==> e == OperationError::Encryption,
{
    let nonce = random_nonce();
    let r = encrypt_with_nonce(shared_secret_key, data, nonce);
    match r {
        Ok(c) => {
            assert(c@.take(12) =~= nonce@);
            assert(c@.skip(12) =~= chacha20poly1305_seal(connection_key(shared_secret_key@), nonce@, data@, Seq::empty()));
            Ok(c)
        },
        Err(e) => Err(e),
    }
}

/// What decrypting `data` (a 12-byte nonce, then the ciphertext) gives.
pub open spec fn decryption(shared_secret: Seq<u8>, data: Seq<u8>) -> Result<Seq<u8>, OperationError> {
    if data.len() < 12 {
        Err(OperationError::NonceMissing)
    } else {
        match chacha20poly1305_open(connection_key(shared_secret), data.take(12), data.skip(12), Seq::empty()) {
            Some(p) => Ok(p),
            None => Err(OperationError::Decryption),
        }
    }
}

/// Decrypts bytes produced by [`encrypt`]: the first 12 bytes are the nonce. Data shorter
/// than the nonce is an error.
pub fn decrypt(shared_secret_key: &[u8; 32], data: &[u8]) -> (r: Result<Vec<u8>, OperationError>)
    ensures
        match decryption(shared_secret_key@, data@) {
            Ok(p) => r matches Ok(v) && v@ == p,
            Err(e) => r == Err::<Vec<u8>, OperationError>(e),
        },
{
    if data.len() < 12 {
        return Err(OperationError::NonceMissing);
    }
    let mut nonce: [u8; 12] = [0u8; 12];
    let mut i: usize = 0;
    while i < 12
        invariant
            i <= 12,
            data@.len() >= 12,
            nonce@.len() == 12,
            forall|j: int| 0 <= j < i ==> nonce@[j] == data@[j],
        decreases 12 - i,
    {
        nonce[i] = data[i];
        i = i + 1;
    }
    assert(nonce@ =~= data@.take(12));
    let len = data.len();
    let cipher_bytes = &data[12..len];
    assert(cipher_bytes@ =~= data@.skip(12));
    let key = match derive_connection_key(shared_secret_key) {
        Ok(k) => k,
        Err(e) => return Err(e),
    };
    let empty: [u8; 0] = [];
    assert(empty@ =~= Seq::<u8>::empty());
    match chacha20poly1305_decrypt(&key, &nonce, cipher_bytes, &empty) {
        Ok(p) => Ok(p),
        Err(_) => Err(OperationError::Decryption),
    }
}

/// Decrypting what [`encrypt`] produced gives the data back.
pub proof fn lemma_decrypt_inverts_encrypt(shared_secret: Seq<u8>, nonce: Seq<u8>, data: Seq<u8>, c: Seq<u8>)
    requires
        nonce.len() == 12,
        c == nonce + chacha20poly1305_seal(connection_key(shared_secret), nonce, data, Seq::empty()),
        chacha20poly1305_open(connection_key(shared_secret), nonce, c.skip(12), Seq::empty()) == Some(data),
    ensures
        decryption(shared_secret, c) == Ok::<Seq<u8>, OperationError>(data),
{
    assert(c.take(12) =~= nonce);
}

// ---------------------------------------------------------------------------
// Signed key exchange
// ---------------------------------------------------------------------------

/// Whether `signature` is a valid Ed25519 signature of `message` by the holder of `public`
/// (which must decode to a curve point).
pub uninterp spec fn ed25519_signature_verifies(public: Seq<u8>, message: Seq<u8>, signature: Seq<u8>) -> bool;

/// Calls `VerifyingKey::from_bytes(public)` and, when the key decodes, `verify(message,
/// &Signature::from_bytes(signature))`: whether both succeed.
#[verifier::external_body]
fn ed25519_verify(public: &[u8; 32], message: &[u8], signature: &[u8; 64]) -> (ok: bool)
    ensures
        ok == ed25519_signature_verifies(public@, message@, signature@),
{
    match ed25519_dalek::VerifyingKey::from_bytes(public) {
        Ok(key) => key.verify(message, &ed25519_dalek::Signature::from_bytes(signature)).is_ok(),
        Err(_) => false,
    }
}

/// The Ed25519 public (verifying) key of a 32-byte signing secret.
pub uninterp spec fn ed25519_public_key(secret: Seq<u8>) -> Seq<u8>;

/// The Ed25519 signature of `message` by the 32-byte signing secret `secret`.
pub uninterp spec fn ed25519_signature(secret: Seq<u8>, message: Seq<u8>) -> Seq<u8>;

/// Calls `SigningKey::from_bytes(secret).sign(message)` and returns the signature's 64
/// bytes. Ed25519 signing is deterministic, and as the ed25519-dalek source shows
/// (`try_sign` signs with the key's own verifying key), the signature verifies under the
/// signing key's verifying key.
#[verifier::external_body]
fn ed25519_sign(secret: &[u8; 32], message: &[u8]) -> (sig: [u8; 64])
    ensures
        sig@ == ed25519_signature(secret@, message@),
        ed25519_signature_verifies(ed25519_public_key(secret@), message@, sig@),
{
    ed25519_dalek::SigningKey::from_bytes(secret).sign(message).to_bytes()
}

/// Calls `SigningKey::from_bytes(secret).verifying_key()` and returns its 32 bytes.
#[verifier::external_body]
fn ed25519_verifying_key(secret: &[u8; 32]) -> (key: [u8; 32])
    ensures
        key@ == ed25519_public_key(secret@),
{
    ed25519_dalek::SigningKey::from_bytes(secret).verifying_key().to_bytes()
}

/// The identity key of the onion service with this signing secret: the public key under which
/// the dialing side checks the listener's signed ratchet key.
pub fn identity_key(signing_secret: &[u8; 32]) -> (key: [u8; 32])
    ensures
        key@ == ed25519_public_key(signing_secret@),
{
    ed25519_verifying_key(signing_secret)
}

/// The first message of the listening side of the key exchange: the public key of the
/// local ratchet secret, signed with the onion service's signing secret. The dialing side's
/// handshake with the identity key of that signing secret accepts it, and records that
/// public key.
pub fn listener_hello(signing_secret: &[u8; 32], local_secret: &[u8; 32]) -> (payload: Vec<u8>)
    ensures
        payload@ == msg_bytes(
            MsgView::SignedAndPublicKey(
                ed25519_signature(signing_secret@, x25519_public_key(local_secret@)),
                x25519_public_key(local_secret@),
            ),
        ),
        parse_msg(payload@) matches Some((m, _)) && handshake_result(ed25519_public_key(signing_secret@), m)
            == Ok::<Seq<u8>, HandshakeError>(x25519_public_key(local_secret@)),
{
    let local_public = x25519_public(local_secret);
    let signature = ed25519_sign(signing_secret, &local_public);
    let mut sig: Vec<u8> = Vec::new();
    sig.extend_from_slice(&signature);
    assert(sig@ =~= signature@);
    let msg = Msg::SignedAndPublicKey(sig, local_public);
    proof {
        lemma_msg_roundtrip(msg@, Seq::empty());
        assert(msg_bytes(msg@) + Seq::<u8>::empty() =~= msg_bytes(msg@));
    }
    msg.to_vec()
}

/// Errors of the signed key exchange.
#[derive(Debug, Clone, Copy, PartialEq, Eq)]
pub enum HandshakeError {
    /// The message was not a signed public key.
    NoSignedPublicKey,
    /// The signature was not 64 bytes long (its length is given).
    SignatureLength(usize),
    /// The signature did not verify under the peer's identity key.
    SignatureRejected,
}

/// What the key exchange makes of the peer's message: the claimed public key when the
/// message is a signed public key whose 64-byte signature verifies under `identity`.
pub open spec fn handshake_result(identity: Seq<u8>, msg: MsgView) -> Result<Seq<u8>, HandshakeError> {
    match msg {
        MsgView::SignedAndPublicKey(sig, key) => if sig.len() != 64 {
            Err(HandshakeError::SignatureLength(sig.len() as usize))
        } else if ed25519_signature_verifies(identity, key, sig) {
            Ok(key)
        } else {
            Err(HandshakeError::SignatureRejected)
        },
        _ => Err(HandshakeError::NoSignedPublicKey),
    }
}

/// Checks the peer's signed ratchet public key against the peer's identity key (the Ed25519
/// key its onion address encodes) and, when it verifies, records it as the remote public key.
pub fn x25519_handshake(remote_public_key: &mut Option<[u8; 32]>, peer_identity: &[u8; 32], msg: Msg) -> (r: Result<(), HandshakeError>)
    ensures
        match handshake_result(peer_identity@, msg@) {
            Ok(key) => r is Ok && (*final(remote_public_key) matches Some(k) && k@ == key),
            Err(e) => r == Err::<(), HandshakeError>(e) && *final(remote_public_key) == *old(remote_public_key),
        },
{
    let (signature, claimed_remote_public_key) = match msg {
        Msg::SignedAndPublicKey(signature, key) => (signature, key),
        _ => return Err(HandshakeError::NoSignedPublicKey),
    };
    if signature.len() != 64 {
        return Err(HandshakeError::SignatureLength(signature.len()));
    }
    let mut sig: [u8; 64] = [0u8; 64];
    let mut i: usize = 0;
    while i < 64
        invariant
            i <= 64,
            signature@.len() == 64,
            sig@.len() == 64,
            forall|j: int| 0 <= j < i ==> sig@[j] == signature@[j],
        decreases 64 - i,
    {
        sig[i] = signature[i];
        i = i + 1;
    }
    assert(sig@ =~= signature@);
    if !ed25519_verify(peer_identity, &claimed_remote_public_key, &sig) {
        return Err(HandshakeError::SignatureRejected);
    }
    *remote_public_key = Some(claimed_remote_public_key);
    Ok(())
}

// ---------------------------------------------------------------------------
// Framing and the Diffie-Hellman exchange
// ---------------------------------------------------------------------------

/// A frame: the payload's length as 2 big-endian bytes (truncated to 16 bits), then the payload.
pub open spec fn frame_bytes(payload: Seq<u8>) -> Seq<u8> {
    let n = payload.len() as u16;
    seq![(n >> 8) as u8, n as u8] + payload
}

/// Frames `payload` for the stream: its length, then its bytes.
pub fn frame(payload: &[u8]) -> (f: Vec<u8>)
    ensures
        f@ == frame_bytes(payload@),
{
    let n = payload.len() as u16;
    let mut out: Vec<u8> = Vec::new();
    out.push((n >> 8) as u8);
    out.push(n as u8);
    out.extend_from_slice(payload);
    assert(out@ =~= frame_bytes(payload@));
    out
}

/// The Diffie-Hellman exchange of a connection: the shared secret of the local secret and
/// the remote public key, and the frame that carries the local public key to the peer.
pub fn edh_exchange(local_secret: &[u8; 32], remote_public_key: &[u8; 32]) -> (r: ([u8; 32], Vec<u8>))
    ensures
        r.0@ == x25519_shared_secret(local_secret@, remote_public_key@),
        dh_agrees(local_secret@, remote_public_key@),
        r.1@ == frame_bytes(msg_bytes(MsgView::PublicKey(x25519_public_key(local_secret@)))),
{
    let local_public_key = x25519_public(local_secret);
    let shared_secret_key = x25519_diffie_hellman(local_secret, remote_public_key);
    let msg_bytes = Msg::PublicKey(local_public_key).to_vec();
    (shared_secret_key, frame(msg_bytes.as_slice()))
}

/// Both sides of the key exchange compute the same shared secret: the dialer's exchange (its
/// secret with the listener's public key) agrees, as [`edh_exchange`] ensures, and so gives
/// what the listener computes from its secret and the dialer's public key.
pub proof fn lemma_exchange_agrees(dialer_secret: Seq<u8>, listener_secret: Seq<u8>)
    requires
        listener_secret.len() == 32,
        dh_agrees(dialer_secret, x25519_public_key(listener_secret)),
    ensures
        x25519_shared_secret(dialer_secret, x25519_public_key(listener_secret))
            == x25519_shared_secret(listener_secret, x25519_public_key(dialer_secret)),
{
    assert(x25519_public_key(listener_secret) == x25519_public_key(listener_secret));
}

/// The key exchange accepts a key only from a signed public key whose signature is 64 bytes
/// long and verifies, under the peer's identity key, as a signature of that very key; any
/// other message is refused, and a signature of the wrong length is refused with its length.
pub proof fn lemma_handshake_accepts_only_verified_keys(identity: Seq<u8>, msg: MsgView)
    ensures
        handshake_result(identity, msg) is Ok <==> (msg matches MsgView::SignedAndPublicKey(sig, key)
            && sig.len() == 64 && ed25519_signature_verifies(identity, key, sig)),
        handshake_result(identity, msg) is Ok ==> msg is SignedAndPublicKey
            && handshake_result(identity, msg)->Ok_0 == msg->SignedAndPublicKey_1,
        !(msg is SignedAndPublicKey) ==> handshake_result(identity, msg) == Err::<Seq<u8>, HandshakeError>(
            HandshakeError::NoSignedPublicKey,
        ),
        msg is SignedAndPublicKey && msg->SignedAndPublicKey_0.len() != 64 ==> handshake_result(identity, msg)
            == Err::<Seq<u8>, HandshakeError>(HandshakeError::SignatureLength(msg->SignedAndPublicKey_0.len() as usize)),
{
}

/// A frame of a payload shorter than 65536 bytes is two bytes longer than the payload, starts
/// with the payload's length, high byte first, and ends with the payload itself.
pub proof fn lemma_frame_carries_length(payload: Seq<u8>)
    requires
        payload.len() < 65536,
    ensures
        frame_bytes(payload).len() == payload.len() + 2,
        frame_bytes(payload)[0] as nat * 256 + frame_bytes(payload)[1] as nat == payload.len(),
        frame_bytes(payload).skip(2) == payload,
{
    let n = payload.len() as u16;
    assert(n as nat == payload.len());
    assert(((n >> 8) as u8) as nat * 256 + (n as u8) as nat == n as nat) by (bit_vector);
    assert(frame_bytes(payload).skip(2) =~= payload);
}

/// Decryption reads the nonce from the first 12 bytes: shorter data is refused for want of a
/// nonce, and otherwise the data is accepted exactly when the rest opens under the connection
/// key and that nonce, giving what it opens to.
pub proof fn lemma_decryption_cases(shared_secret: Seq<u8>, data: Seq<u8>)
    ensures
        data.len() < 12 ==> decryption(shared_secret, data) == Err::<Seq<u8>, OperationError>(OperationError::NonceMissing),
        data.len() >= 12 ==> (decryption(shared_secret, data) is Ok <==> chacha20poly1305_open(
            connection_key(shared_secret),
            data.take(12),
            data.skip(12),
            Seq::empty(),
        ) is Some),
        decryption(shared_secret, data) is Ok ==> Some(decryption(shared_secret, data)->Ok_0) == chacha20poly1305_open(
            connection_key(shared_secret),
            data.take(12),
            data.skip(12),
            Seq::empty(),
        ),
{
}

} // verus!
