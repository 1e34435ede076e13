use bincode::config;
use conanprotocol::comm::enums::{encode, IPCCmd, IPCRes};
use conanprotocol::crypto::aead::hkdf_derive;
use conanprotocol::crypto::ratchet::RatchetSession;
use conanprotocol::msg::Msg;
use rand_core::OsRng;
use x25519_dalek::{EphemeralSecret, PublicKey, StaticSecret};

/// Both sides derive the responder's first ratchet key pair from the shared secret.
fn derive_bob_ratchet_key(shared_secret: &[u8; 32]) -> ([u8; 32], PublicKey) {
    let okm = hkdf_derive(shared_secret, None, b"conan-bob-ratchet-key", 32).unwrap();
    let mut bytes = [0u8; 32];
    bytes.copy_from_slice(&okm);
    let secret = StaticSecret::from(bytes);
    let public = PublicKey::from(&secret);
    (secret.to_bytes(), public)
}

#[test]
fn test_cryptography() {
    let msg = Msg::Text("This is a test text".to_string());

    // Simulate handshake: both sides compute shared secret
    let p1_private_key = EphemeralSecret::random_from_rng(OsRng);
    let p2_private_key = EphemeralSecret::random_from_rng(OsRng);
    let p2_public_key = PublicKey::from(&p2_private_key);
    let shared_secret_key = p1_private_key.diffie_hellman(&p2_public_key);
    let shared_secret_bytes = *shared_secret_key.as_bytes();

    // Both sides derive Bob's ratchet key from shared secret
    let (bob_dh, bob_dh_pub) = derive_bob_ratchet_key(&shared_secret_bytes);

    // Initialize ratchet sessions
    let mut alice =
        RatchetSession::init_sender(&shared_secret_bytes, &bob_dh_pub.to_bytes()).unwrap();
    let mut bob = RatchetSession::init_receiver(&shared_secret_bytes, bob_dh).unwrap();

    // Alice sends a message
    let serialized_msg = msg.to_vec();
    let ratchet_msg = alice.encrypt(&serialized_msg, b"").unwrap();

    // Bob receives and decrypts
    let decrypted_bytes = bob.decrypt(&ratchet_msg, b"").unwrap();
    let deserialized = Msg::from_bytes(&decrypted_bytes);
    assert_eq!(msg, deserialized);
}

// The message encoding is bincode's standard encoding of the enum.

#[test]
fn text_message_matches_bincode() {
    let msg = Msg::from_text("This is a test text");
    let expected =
        bincode::serde::encode_to_vec((0u32, "This is a test text"), config::standard()).unwrap();
    assert_eq!(msg.to_vec(), expected);
    assert_eq!(msg.to_vec()[0], 0);
    assert_eq!(msg.to_vec()[1], 19);
}

#[test]
fn public_key_message_matches_bincode() {
    let key = [9u8; 32];
    let msg = Msg::PublicKey(key);
    let expected = bincode::serde::encode_to_vec((1u32, key), config::standard()).unwrap();
    assert_eq!(msg.to_vec(), expected);
    assert_eq!(msg.to_vec().len(), 33);
}

#[test]
fn signed_key_message_matches_bincode() {
    let sig = vec![3u8; 64];
    let key = [5u8; 32];
    let msg = Msg::SignedAndPublicKey(sig.clone(), key);
    let expected = bincode::serde::encode_to_vec((2u32, sig, key), config::standard()).unwrap();
    assert_eq!(msg.to_vec(), expected);
}

#[test]
fn unit_messages_match_bincode() {
    assert_eq!(Msg::Begin.to_vec(), vec![3]);
    assert_eq!(Msg::End.to_vec(), vec![4]);
}

#[test]
fn long_text_uses_a_wide_length() {
    let text = "x".repeat(300);
    let msg = Msg::Text(text.clone());
    let bytes = msg.to_vec();
    assert_eq!(&bytes[..4], &[0, 251, 44, 1]);
    let expected = bincode::serde::encode_to_vec((0u32, text.as_str()), config::standard()).unwrap();
    assert_eq!(bytes, expected);
    assert_eq!(Msg::from_bytes(&bytes), msg);
}

#[test]
fn every_message_decodes_to_itself() {
    let msgs = vec![
        Msg::Text(String::new()),
        Msg::Text("héllo wörld".to_string()),
        Msg::PublicKey([1u8; 32]),
        Msg::SignedAndPublicKey(vec![7u8; 64], [2u8; 32]),
        Msg::Begin,
        Msg::End,
    ];
    for m in msgs {
        let mut bytes = m.to_vec();
        let n = bytes.len();
        bytes.extend_from_slice(b"trailing");
        assert_eq!(Msg::decode(&bytes), Some((m.clone(), n)));
        assert_eq!(Msg::from_bytes(&bytes), m);
    }
}

#[test]
fn bad_message_bytes_do_not_decode() {
    assert_eq!(Msg::decode(&[]), None);
    assert_eq!(Msg::decode(&[5]), None);
    assert_eq!(Msg::decode(&[1, 0, 0]), None);
    // A text whose bytes are not UTF-8.
    assert_eq!(Msg::decode(&[0, 2, 0xff, 0xfe]), None);
    // A length longer than the rest.
    assert_eq!(Msg::decode(&[0, 5, b'a']), None);
}

// Commands and responses of the daemon.

#[test]
fn commands_match_bincode() {
    assert_eq!(encode(IPCCmd::StartServer), vec![0]);
    assert_eq!(encode(IPCCmd::Tick), vec![2]);
    let connect = encode(IPCCmd::Connect("peer.onion".to_string(), 80));
    let expected =
        bincode::serde::encode_to_vec((1u32, "peer.onion", 80u16), config::standard()).unwrap();
    assert_eq!(connect, expected);
    let high_port = encode(IPCCmd::Connect("p".to_string(), 443));
    assert_eq!(high_port, vec![1, 1, b'p', 251, 0xbb, 0x01]);
}

#[test]
fn responses_match_bincode() {
    assert_eq!(encode(IPCRes::ServerStarted), vec![0]);
    assert_eq!(encode(IPCRes::Tock), vec![3]);
    let err = encode(IPCRes::Error("no route".to_string()));
    let expected = bincode::serde::encode_to_vec((2u32, "no route"), config::standard()).unwrap();
    assert_eq!(err, expected);
}

#[test]
fn commands_and_responses_decode_to_themselves() {
    let cmds = vec![
        IPCCmd::StartServer,
        IPCCmd::Connect("abc.onion".to_string(), 65535),
        IPCCmd::Tick,
    ];
    for c in cmds {
        let bytes = encode(c.clone());
        assert_eq!(IPCCmd::decode(&bytes), Some((c, bytes.len())));
    }
    let ress = vec![
        IPCRes::ServerStarted,
        IPCRes::Connected("abc.onion".to_string(), 80),
        IPCRes::Error("boom".to_string()),
        IPCRes::Tock,
    ];
    for r in ress {
        let bytes = encode(r.clone());
        assert_eq!(IPCRes::decode(&bytes), Some((r, bytes.len())));
    }
    assert_eq!(IPCCmd::decode(&[3]), None);
    assert_eq!(IPCRes::decode(&[4]), None);
    assert_eq!(IPCCmd::decode(&[1, 1, b'p', 253, 0, 0, 0, 0, 0, 0, 0, 0]), None);
}
