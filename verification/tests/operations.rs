use conanprotocol::crypto::aead::{
    decrypt_with_aad, encrypt_with_aad, hkdf_derive, AeadError, EncryptedMessage, KdfLengthError,
    MessageKey, HKDF_MAX_OUTPUT,
};
use conanprotocol::msg::Msg;
use conanprotocol::operations::{
    decrypt, edh_exchange, encrypt, encrypt_with_nonce, frame, identity_key, listener_hello, x25519_handshake,
    HandshakeError,
    OperationError,
};
use ed25519_dalek::{Signer, SigningKey};
use x25519_dalek::{PublicKey, StaticSecret};

#[test]
fn encrypt_then_decrypt_gives_the_data_back() {
    let key = [7u8; 32];
    let data = Msg::from_text("hello").to_vec();
    let c = encrypt(&key, &data).unwrap();
    assert_eq!(c.len(), 12 + data.len() + 16);
    assert_eq!(decrypt(&key, &c).unwrap(), data);
}

#[test]
fn two_encryptions_use_different_nonces() {
    let key = [7u8; 32];
    let c1 = encrypt(&key, b"same").unwrap();
    let c2 = encrypt(&key, b"same").unwrap();
    assert_ne!(c1[..12], c2[..12]);
}

#[test]
fn nonce_is_placed_in_front() {
    let key = [1u8; 32];
    let nonce = [9u8; 12];
    let c = encrypt_with_nonce(&key, b"abc", nonce).unwrap();
    assert_eq!(&c[..12], &nonce);
    assert_ne!(&c[12..15], b"abc");
    assert_eq!(decrypt(&key, &c).unwrap(), b"abc");
    // The same key, nonce and data always give the same bytes.
    assert_eq!(encrypt_with_nonce(&key, b"abc", nonce).unwrap(), c);
}

#[test]
fn wrong_key_or_tampering_fails_decryption() {
    let c = encrypt(&[1u8; 32], b"secret").unwrap();
    assert_eq!(decrypt(&[2u8; 32], &c), Err(OperationError::Decryption));
    let mut t = c.clone();
    let last = t.len() - 1;
    t[last] ^= 1;
    assert_eq!(decrypt(&[1u8; 32], &t), Err(OperationError::Decryption));
    assert_eq!(decrypt(&[1u8; 32], &c[..12]), Err(OperationError::Decryption));
}

#[test]
fn handshake_accepts_a_signed_key() {
    let signing = SigningKey::from_bytes(&[42u8; 32]);
    let identity = signing.verifying_key().to_bytes();
    let ratchet_pub = [8u8; 32];
    let sig = signing.sign(&ratchet_pub).to_bytes().to_vec();
    let mut remote = None;
    assert_eq!(
        x25519_handshake(&mut remote, &identity, Msg::SignedAndPublicKey(sig, ratchet_pub)),
        Ok(())
    );
    assert_eq!(remote, Some(ratchet_pub));
}

#[test]
fn handshake_refuses_other_messages() {
    let mut remote = Some([1u8; 32]);
    assert_eq!(
        x25519_handshake(&mut remote, &[0u8; 32], Msg::Begin),
        Err(HandshakeError::NoSignedPublicKey)
    );
    assert_eq!(
        x25519_handshake(&mut remote, &[0u8; 32], Msg::SignedAndPublicKey(vec![0u8; 10], [2u8; 32])),
        Err(HandshakeError::SignatureLength(10))
    );
    assert_eq!(remote, Some([1u8; 32]));
}

#[test]
fn handshake_refuses_a_wrong_signature() {
    let signing = SigningKey::from_bytes(&[42u8; 32]);
    let other = SigningKey::from_bytes(&[43u8; 32]);
    let identity = signing.verifying_key().to_bytes();
    let ratchet_pub = [8u8; 32];
    let sig = other.sign(&ratchet_pub).to_bytes().to_vec();
    let mut remote = None;
    assert_eq!(
        x25519_handshake(&mut remote, &identity, Msg::SignedAndPublicKey(sig, ratchet_pub)),
        Err(HandshakeError::SignatureRejected)
    );
    assert_eq!(remote, None);
}

#[test]
fn frame_prefixes_the_length() {
    assert_eq!(frame(b"abc"), vec![0, 3, b'a', b'b', b'c']);
    let long = vec![0u8; 300];
    let f = frame(&long);
    assert_eq!(&f[..2], &[1, 44]);
    assert_eq!(f.len(), 302);
}

#[test]
fn both_sides_of_the_exchange_agree() {
    let a = StaticSecret::from([3u8; 32]);
    let b = StaticSecret::from([4u8; 32]);
    let a_pub = PublicKey::from(&a).to_bytes();
    let b_pub = PublicKey::from(&b).to_bytes();
    let (ka, fa) = edh_exchange(&a.to_bytes(), &b_pub);
    let (kb, fb) = edh_exchange(&b.to_bytes(), &a_pub);
    assert_eq!(ka, kb);
    assert_eq!(fa, frame(&Msg::PublicKey(a_pub).to_vec()));
    assert_eq!(fb, frame(&Msg::PublicKey(b_pub).to_vec()));
}

#[test]
fn hkdf_matches_the_rfc_vector() {
    // The first vector of RFC 5869 (appendix A.1).
    let ikm = [0x0bu8; 22];
    let salt: Vec<u8> = (0u8..=0x0c).collect();
    let info: Vec<u8> = (0xf0u8..=0xf9).collect();
    let okm = hkdf_derive(&ikm, Some(&salt), &info, 42).unwrap();
    let expected = [
        0x3c, 0xb2, 0x5f, 0x25, 0xfa, 0xac, 0xd5, 0x7a, 0x90, 0x43, 0x4f, 0x64, 0xd0, 0x36, 0x2f,
        0x2a, 0x2d, 0x2d, 0x0a, 0x90, 0xcf, 0x1a, 0x5a, 0x4c, 0x5d, 0xb0, 0x2d, 0x56, 0xec, 0xc4,
        0xc5, 0xbf, 0x34, 0x00, 0x72, 0x08, 0xd5, 0xb8, 0x87, 0x18, 0x58, 0x65,
    ];
    assert_eq!(okm, expected);
    assert_eq!(hkdf_derive(&ikm, None, &info, HKDF_MAX_OUTPUT + 1), Err(KdfLengthError));
    assert_eq!(hkdf_derive(&ikm, None, &info, HKDF_MAX_OUTPUT).unwrap().len(), HKDF_MAX_OUTPUT);
}

#[test]
fn aead_round_trip_and_errors() {
    let key = MessageKey::from_bytes([5u8; 32]);
    let sealed = encrypt_with_aad(&key, 3, b"payload", b"ad").unwrap();
    assert_eq!(sealed.nonce, 3);
    assert_eq!(sealed.ciphertext.len(), 7 + 16);
    assert_eq!(decrypt_with_aad(&key, &sealed, b"ad").unwrap(), b"payload");
    assert_eq!(decrypt_with_aad(&key, &sealed, b"other"), Err(AeadError::Decryption));
    let moved = EncryptedMessage { nonce: 4, ciphertext: sealed.ciphertext.clone() };
    assert_eq!(decrypt_with_aad(&key, &moved, b"ad"), Err(AeadError::Decryption));
}

#[test]
fn listener_hello_passes_the_dialers_handshake() {
    let signing_secret = [11u8; 32];
    let identity = SigningKey::from_bytes(&signing_secret).verifying_key().to_bytes();
    assert_eq!(identity_key(&signing_secret), identity);
    let local_secret = [12u8; 32];
    let local_public = PublicKey::from(&StaticSecret::from(local_secret)).to_bytes();
    let hello = listener_hello(&signing_secret, &local_secret);
    let (msg, n) = Msg::decode(&hello).unwrap();
    assert_eq!(n, hello.len());
    let mut remote = None;
    assert_eq!(x25519_handshake(&mut remote, &identity, msg), Ok(()));
    assert_eq!(remote, Some(local_public));
    // Another identity refuses it.
    let other = SigningKey::from_bytes(&[13u8; 32]).verifying_key().to_bytes();
    let (msg, _) = Msg::decode(&hello).unwrap();
    assert_eq!(x25519_handshake(&mut remote, &other, msg), Err(HandshakeError::SignatureRejected));
}

#[test]
fn data_shorter_than_a_nonce_is_an_error() {
    assert_eq!(decrypt(&[0u8; 32], &[1u8, 2, 3]), Err(OperationError::NonceMissing));
    assert_eq!(decrypt(&[0u8; 32], &[]), Err(OperationError::NonceMissing));
    let c = encrypt(&[0u8; 32], b"four").unwrap();
    assert_eq!(c.len(), 12 + 4 + 16);
}
