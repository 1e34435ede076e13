use conanprotocol::crypto::ratchet::{RatchetError, RatchetHeader, RatchetMessage, RatchetSession};
use conanprotocol::crypto::ratchet_model::MAX_SKIP;
use rand_core::OsRng;
use x25519_dalek::{PublicKey as X25519PublicKey, StaticSecret};

fn setup() -> (RatchetSession, RatchetSession) {
    let shared_secret = [0xABu8; 32];
    let bob_dh = StaticSecret::random_from_rng(OsRng);
    let bob_dh_pub = X25519PublicKey::from(&bob_dh);
    let alice = RatchetSession::init_sender(&shared_secret, &bob_dh_pub.to_bytes()).unwrap();
    let bob = RatchetSession::init_receiver(&shared_secret, bob_dh.to_bytes()).unwrap();
    (alice, bob)
}

#[test]
fn alice_sends_bob_receives() {
    let (mut alice, mut bob) = setup();
    let msg = alice.encrypt(b"hello bob", b"").unwrap();
    assert_eq!(bob.decrypt(&msg, b"").unwrap(), b"hello bob");
}

#[test]
fn bidirectional_conversation() {
    let (mut alice, mut bob) = setup();
    let msg = alice.encrypt(b"hello bob", b"").unwrap();
    assert_eq!(bob.decrypt(&msg, b"").unwrap(), b"hello bob");
    let msg = bob.encrypt(b"hello alice", b"").unwrap();
    assert_eq!(alice.decrypt(&msg, b"").unwrap(), b"hello alice");
    let msg = alice.encrypt(b"second message", b"").unwrap();
    assert_eq!(bob.decrypt(&msg, b"").unwrap(), b"second message");
}

#[test]
fn multiple_sequential_messages() {
    let (mut alice, mut bob) = setup();
    for m in &[b"one" as &[u8], b"two", b"three", b"four", b"five"] {
        let msg = alice.encrypt(m, b"").unwrap();
        assert_eq!(&bob.decrypt(&msg, b"").unwrap(), m);
    }
}

#[test]
fn ciphertexts_differ_for_same_plaintext() {
    let (mut alice, _) = setup();
    let msg1 = alice.encrypt(b"repeated", b"").unwrap();
    let msg2 = alice.encrypt(b"repeated", b"").unwrap();
    assert_ne!(msg1.payload.ciphertext, msg2.payload.ciphertext);
}

#[test]
fn out_of_order_delivery() {
    let (mut alice, mut bob) = setup();
    let msg1 = alice.encrypt(b"message 1", b"").unwrap();
    let msg2 = alice.encrypt(b"message 2", b"").unwrap();
    let msg3 = alice.encrypt(b"message 3", b"").unwrap();
    assert_eq!(bob.decrypt(&msg3, b"").unwrap(), b"message 3");
    assert_eq!(bob.skipped_keys_count(), 2);
    assert_eq!(bob.decrypt(&msg1, b"").unwrap(), b"message 1");
    assert_eq!(bob.decrypt(&msg2, b"").unwrap(), b"message 2");
    assert_eq!(bob.skipped_keys_count(), 0);
}

#[test]
fn out_of_order_across_dh_ratchet() {
    let (mut alice, mut bob) = setup();
    let msg_a1 = alice.encrypt(b"a1", b"").unwrap();
    let msg_a2 = alice.encrypt(b"a2", b"").unwrap();
    assert_eq!(bob.decrypt(&msg_a2, b"").unwrap(), b"a2");
    assert_eq!(bob.skipped_keys_count(), 1);
    let msg_b1 = bob.encrypt(b"b1", b"").unwrap();
    assert_eq!(alice.decrypt(&msg_b1, b"").unwrap(), b"b1");
    assert_eq!(bob.decrypt(&msg_a1, b"").unwrap(), b"a1");
    assert_eq!(bob.skipped_keys_count(), 0);
}

#[test]
fn header_prev_chain_length_tracks_previous_chain_length() {
    let (mut alice, mut bob) = setup();
    let m1 = alice.encrypt(b"m1", b"").unwrap();
    let m2 = alice.encrypt(b"m2", b"").unwrap();
    let m3 = alice.encrypt(b"m3", b"").unwrap();
    bob.decrypt(&m1, b"").unwrap();
    bob.decrypt(&m2, b"").unwrap();
    bob.decrypt(&m3, b"").unwrap();
    let reply = bob.encrypt(b"reply", b"").unwrap();
    alice.decrypt(&reply, b"").unwrap();
    let m4 = alice.encrypt(b"m4", b"").unwrap();
    bob.decrypt(&m4, b"").unwrap();
}

#[test]
fn session_ad_is_authenticated() {
    let (mut alice, mut bob) = setup();
    let ad = b"alice-id:bob-id";
    let msg = alice.encrypt(b"secret", ad).unwrap();
    assert!(bob.decrypt(&msg, ad).is_ok());
    assert!(bob.decrypt(&msg, b"wrong-ad").is_err());
}

#[test]
fn wrong_shared_secret_fails() {
    let bob_dh = StaticSecret::random_from_rng(OsRng);
    let bob_dh_pub = X25519PublicKey::from(&bob_dh);
    let mut alice = RatchetSession::init_sender(&[0xAAu8; 32], &bob_dh_pub.to_bytes()).unwrap();
    let mut bob = RatchetSession::init_receiver(&[0xBBu8; 32], bob_dh.to_bytes()).unwrap();
    let msg = alice.encrypt(b"secret", b"").unwrap();
    assert!(bob.decrypt(&msg, b"").is_err());
}

#[test]
fn tampered_ciphertext_fails() {
    let (mut alice, mut bob) = setup();
    let mut msg = alice.encrypt(b"important", b"").unwrap();
    msg.payload.ciphertext[0] ^= 0xFF;
    assert!(bob.decrypt(&msg, b"").is_err());
}

#[test]
fn tampered_header_fails() {
    let (mut alice, mut bob) = setup();
    let mut msg = alice.encrypt(b"important", b"").unwrap();
    msg.encrypted_header.ciphertext[0] ^= 0xFF;
    assert!(bob.decrypt(&msg, b"").is_err());
}

#[test]
fn exceeding_max_skip_returns_error() {
    let (mut alice, mut bob) = setup();
    let mut messages: Vec<RatchetMessage> = Vec::new();
    for _ in 0..=(MAX_SKIP + 1) {
        messages.push(alice.encrypt(b"x", b"").unwrap());
    }
    let last = messages.len() - 1;
    assert!(matches!(
        bob.decrypt(&messages[last], b""),
        Err(RatchetError::TooManySkipped(_))
    ));
}

// Further scenarios of the session.

#[test]
fn responder_cannot_send_first() {
    let (_, mut bob) = setup();
    assert_eq!(
        bob.encrypt(b"too early", b"").unwrap_err(),
        RatchetError::SendChainNotInitialized
    );
}

#[test]
fn tampered_header_is_a_header_failure() {
    let (mut alice, mut bob) = setup();
    let mut msg = alice.encrypt(b"important", b"").unwrap();
    msg.encrypted_header.ciphertext[0] ^= 0xFF;
    assert_eq!(bob.decrypt(&msg, b"").unwrap_err(), RatchetError::HeaderDecryptionFailed);
}

#[test]
fn tampered_payload_is_an_aead_failure() {
    let (mut alice, mut bob) = setup();
    let mut msg = alice.encrypt(b"important", b"").unwrap();
    msg.payload.ciphertext[0] ^= 0xFF;
    assert!(matches!(bob.decrypt(&msg, b""), Err(RatchetError::Aead(_))));
}

#[test]
fn max_skip_exactly_is_accepted() {
    let (mut alice, mut bob) = setup();
    let mut last = None;
    for _ in 0..=MAX_SKIP {
        last = Some(alice.encrypt(b"y", b"").unwrap());
    }
    assert_eq!(bob.decrypt(&last.unwrap(), b"").unwrap(), b"y");
    assert_eq!(bob.skipped_keys_count() as u64, MAX_SKIP);
}

#[test]
fn replayed_message_is_refused() {
    let (mut alice, mut bob) = setup();
    let msg = alice.encrypt(b"once", b"").unwrap();
    assert_eq!(bob.decrypt(&msg, b"").unwrap(), b"once");
    assert!(bob.decrypt(&msg, b"").is_err());
}

#[test]
fn payload_ciphertext_is_plaintext_plus_tag() {
    let (mut alice, _) = setup();
    let msg = alice.encrypt(b"twelve bytes", b"").unwrap();
    assert_eq!(msg.payload.ciphertext.len(), 12 + 16);
    assert_eq!(msg.encrypted_header.ciphertext.len(), 48 + 16);
    assert_eq!(msg.payload.nonce, 0);
    let next = alice.encrypt(b"x", b"").unwrap();
    assert_eq!(next.payload.nonce, 1);
}

#[test]
fn local_public_key_changes_after_reply_ratchet() {
    let (mut alice, mut bob) = setup();
    let before = bob.local_public_key();
    let msg = alice.encrypt(b"ping", b"").unwrap();
    bob.decrypt(&msg, b"").unwrap();
    assert_ne!(bob.local_public_key(), before);
}

#[test]
fn header_round_trip() {
    let h = RatchetHeader::new([7u8; 32], 3, 258);
    let bytes = h.to_bytes();
    assert_eq!(&bytes[32..40], &[0, 0, 0, 0, 0, 0, 0, 3]);
    assert_eq!(&bytes[40..48], &[0, 0, 0, 0, 0, 0, 1, 2]);
    assert_eq!(RatchetHeader::from_bytes(&bytes), Some(h));
    assert_eq!(RatchetHeader::from_bytes(&bytes[..47]), None);
}

/// Alice sends `MAX_SKIP + 1` messages of which Bob receives only the last.
fn burst(alice: &mut RatchetSession, bob: &mut RatchetSession) -> Result<Vec<u8>, RatchetError> {
    let mut last = None;
    for _ in 0..=MAX_SKIP {
        last = Some(alice.encrypt(b"burst", b"").unwrap());
    }
    bob.decrypt(&last.unwrap(), b"")
}

#[test]
fn skipped_store_fills_up() {
    let (mut alice, mut bob) = setup();
    assert_eq!(burst(&mut alice, &mut bob).unwrap(), b"burst");
    assert_eq!(bob.skipped_keys_count(), 1000);
    let reply = bob.encrypt(b"r1", b"").unwrap();
    assert_eq!(alice.decrypt(&reply, b"").unwrap(), b"r1");
    assert_eq!(burst(&mut alice, &mut bob).unwrap(), b"burst");
    assert_eq!(bob.skipped_keys_count(), 2000);
    let reply = bob.encrypt(b"r2", b"").unwrap();
    assert_eq!(alice.decrypt(&reply, b"").unwrap(), b"r2");
    assert_eq!(burst(&mut alice, &mut bob).unwrap_err(), RatchetError::SkippedKeysFull);
    assert_eq!(bob.skipped_keys_count(), 2000);
}

#[test]
fn late_messages_open_in_any_order() {
    let (mut alice, mut bob) = setup();
    let texts: Vec<Vec<u8>> = (0..5u8).map(|i| vec![b'm', b'0' + i]).collect();
    let ads: Vec<Vec<u8>> = (0..5u8).map(|i| vec![i; 3]).collect();
    let msgs: Vec<RatchetMessage> =
        texts.iter().zip(&ads).map(|(t, ad)| alice.encrypt(t, ad).unwrap()).collect();
    assert_eq!(bob.decrypt(&msgs[4], &ads[4]).unwrap(), texts[4]);
    assert_eq!(bob.skipped_keys_count(), 4);
    for j in [2usize, 0, 3, 1] {
        assert_eq!(bob.decrypt(&msgs[j], &ads[j]).unwrap(), texts[j]);
    }
    assert_eq!(bob.skipped_keys_count(), 0);
    let next = alice.encrypt(b"in step", b"").unwrap();
    assert_eq!(bob.decrypt(&next, b"").unwrap(), b"in step");
}

#[test]
fn failed_decryption_keeps_the_session() {
    let (mut alice, mut bob) = setup();
    let m0 = alice.encrypt(b"m0", b"").unwrap();
    let m1 = alice.encrypt(b"m1", b"").unwrap();
    assert_eq!(bob.decrypt(&m0, b"").unwrap(), b"m0".to_vec());
    assert!(bob.decrypt(&m0, b"").is_err());
    assert_eq!(bob.decrypt(&m1, b"").unwrap(), b"m1".to_vec());
}

#[test]
fn wrong_associated_data_keeps_the_session() {
    let (mut alice, mut bob) = setup();
    let m0 = alice.encrypt(b"m0", b"ad").unwrap();
    assert!(bob.decrypt(&m0, b"other").is_err());
    assert_eq!(bob.skipped_keys_count(), 0);
    assert_eq!(bob.decrypt(&m0, b"ad").unwrap(), b"m0".to_vec());
}

#[test]
fn delayed_message_opens_after_a_ratchet_step() {
    let (mut alice, mut bob) = setup();
    let a1 = alice.encrypt(b"a1", b"").unwrap();
    let a2 = alice.encrypt(b"a2", b"").unwrap();
    assert_eq!(bob.decrypt(&a1, b"").unwrap(), b"a1".to_vec());
    let b1 = bob.encrypt(b"b1", b"").unwrap();
    assert_eq!(alice.decrypt(&b1, b"").unwrap(), b"b1".to_vec());
    let a3 = alice.encrypt(b"a3", b"").unwrap();
    assert_eq!(bob.decrypt(&a3, b"").unwrap(), b"a3".to_vec());
    assert_eq!(bob.skipped_keys_count(), 1);
    assert_eq!(bob.decrypt(&a2, b"").unwrap(), b"a2".to_vec());
    assert_eq!(bob.skipped_keys_count(), 0);
}
