//! What holds of a conversation between two ratchet sessions: a message one of them encrypts,
//! the other decrypts to the same plaintext, and the two stay in step.
use vstd::prelude::*;

use crate::crypto::aead::{be_u64, lemma_be_u64_roundtrip, lemma_u64_be_roundtrip};
use crate::crypto::dh::{dh_agrees, x25519_public_key, x25519_shared_secret};
use crate::crypto::ratchet::RatchetError;
use crate::crypto::ratchet_model::{
    HeaderView, MessageView, SessionView, decrypt_header, decrypt_in_chain, decrypt_step,
    decrypted, dh_step, encrypt_step, encrypted, encryption_opens, header_bytes, info_init_hkr,
    info_init_hks, info_init_rk, init_receiver_state, init_sender_state, initial_key,
    is_new_remote, entry_is, MAX_SKIP, MAX_SKIPPED_KEYS, lemma_skipped_position_found,
    skipped_insert, SkippedEntry, skipped_store_ok, lemma_insert_keeps_store, lemma_remove_keeps_store,
    decrypt_attempt, decrypt_with_header_keys, find_skipped, lemma_find_skipped_found, entry_opens_header, next_header, open_payload, parse_header, root_chain, root_header, root_next,
    skip_loop, skip_step, skipped_position, try_header_key,
};

verus! {

/// The encoding of a header decodes to the same header.
pub proof fn lemma_header_roundtrip(h: HeaderView)
    requires
        h.dh_pub.len() == 32,
    ensures
        parse_header(header_bytes(h)) == Some(h),
{
    let b = header_bytes(h);
    assert(b.subrange(0, 32) =~= h.dh_pub);
    assert(b.subrange(32, 40) =~= be_u64(h.prev_chain_length));
    assert(b.subrange(40, 48) =~= be_u64(h.message_number));
    lemma_u64_be_roundtrip(h.prev_chain_length);
    lemma_u64_be_roundtrip(h.message_number);
}

/// Every 48 bytes decode to a header whose encoding is those bytes: with fixed-width fields
/// the encoding is unambiguous.
pub proof fn lemma_header_bytes_roundtrip(b: Seq<u8>)
    requires
        b.len() == 48,
    ensures
        parse_header(b) matches Some(h) && header_bytes(h) == b,
{
    let h = parse_header(b)->0;
    lemma_be_u64_roundtrip(b.subrange(32, 40));
    lemma_be_u64_roundtrip(b.subrange(40, 48));
    assert(header_bytes(h) =~= b);
}

/// A session's ratchet secret is 32 bytes and its public key is the secret's public key.
pub open spec fn keys_consistent(s: SessionView) -> bool {
    &&& s.local_secret.len() == 32
    &&& s.local_public.len() == 32
    &&& s.local_public == x25519_public_key(s.local_secret)
}

/// `y` has received every message of `x`'s current sending chain: `y`'s receiving chain,
/// counter and header keys are those `x` sends with.
pub open spec fn same_epoch(x: SessionView, y: SessionView) -> bool {
    &&& x.send_chain is Some
    &&& y.recv_chain == x.send_chain
    &&& y.remote_public == Some(x.local_public)
    &&& y.recv_count == x.send_count
    &&& x.header_key_send is Some
    &&& y.header_key_recv == x.header_key_send
    &&& x.next_header_key_send is Some
    &&& y.next_header_key_recv == x.next_header_key_send
}

/// `x` has started a new sending chain, of which `y` has received nothing yet, after `y`
/// received everything `x` sent before: the Diffie-Hellman ratchet step `y` will take with
/// `x`'s public key derives `x`'s chain, root key and next header key.
pub open spec fn new_epoch(x: SessionView, y: SessionView) -> bool {
    let dh = x25519_shared_secret(y.local_secret, x.local_public);
    &&& x.send_chain == Some(root_chain(y.root_key, dh))
    &&& x.send_count == 0
    &&& x.root_key == root_next(y.root_key, dh)
    &&& x.next_header_key_send == Some(root_header(y.root_key, dh))
    &&& y.remote_public != Some(x.local_public)
    &&& x.header_key_send is Some
    &&& y.next_header_key_recv == x.header_key_send
    &&& y.recv_count == x.prev_chain_length
}

/// `x` has no sending chain yet (a responder that has received nothing); `y`'s next
/// receiving header key is the one `x` will send with.
pub open spec fn not_sending(x: SessionView, y: SessionView) -> bool {
    &&& x.send_chain is None
    &&& x.next_header_key_send is None
    &&& x.header_key_send is Some
    &&& y.next_header_key_recv == x.header_key_send
    &&& y.recv_count == x.send_count
}

/// `y` will decrypt `x`'s next message in order.
pub open spec fn receives_in_order(x: SessionView, y: SessionView) -> bool {
    &&& keys_consistent(x)
    &&& y.skipped.len() == 0
    &&& same_epoch(x, y) || new_epoch(x, y) || not_sending(x, y)
}

/// Two sessions in conversation: each decrypts the other's next message in order, and they
/// have not both started a chain the other has not seen.
pub open spec fn in_conversation(a: SessionView, b: SessionView) -> bool {
    &&& receives_in_order(a, b)
    &&& receives_in_order(b, a)
    &&& !(new_epoch(a, b) && new_epoch(b, a))
}

/// The initiator's and the responder's fresh sessions for the same shared secret, the
/// initiator's made with the responder's ratchet public key, are in conversation.
pub proof fn lemma_fresh_sessions_in_conversation(shared_secret: Seq<u8>, sender_secret: Seq<u8>, receiver_secret: Seq<u8>)
    requires
        sender_secret.len() == 32,
        receiver_secret.len() == 32,
        x25519_public_key(sender_secret).len() == 32,
        x25519_public_key(receiver_secret).len() == 32,
        dh_agrees(sender_secret, x25519_public_key(receiver_secret)),
    ensures
        in_conversation(
            init_sender_state(shared_secret, x25519_public_key(receiver_secret), sender_secret),
            init_receiver_state(shared_secret, receiver_secret),
        ),
{
    let alice = init_sender_state(shared_secret, x25519_public_key(receiver_secret), sender_secret);
    let bob = init_receiver_state(shared_secret, receiver_secret);
    assert(x25519_shared_secret(sender_secret, x25519_public_key(receiver_secret))
        == x25519_shared_secret(receiver_secret, x25519_public_key(sender_secret)));
    assert(new_epoch(alice, bob));
    assert(not_sending(bob, alice));
}

/// In a conversation, the message one session encrypts the other decrypts to the plaintext,
/// and the two sessions stay in conversation.
///
/// It fails, and is not stated, where chance makes a key collide: when the receiver meets a
/// new chain, its current header key must not decrypt the new header, and the public key of
/// its fresh ratchet secret must differ from the one the sender knows for it.
pub proof fn lemma_conversation_delivers(
    a: SessionView,
    b: SessionView,
    plaintext: Seq<u8>,
    ad: Seq<u8>,
    a2: SessionView,
    m: MessageView,
    fresh: Seq<u8>,
    b2: SessionView,
    res: Result<Seq<u8>, RatchetError>,
)
    requires
        in_conversation(a, b),
        encrypted(a, plaintext, ad, a2, Ok(m)),
        decrypted(b, m, ad, fresh, b2, res),
        fresh.len() == 32,
        x25519_public_key(fresh).len() == 32,
        new_epoch(a, b) ==> try_header_key(b.header_key_recv, m.header) is None
            && a.remote_public != Some(x25519_public_key(fresh)),
    ensures
        res == Ok::<Seq<u8>, RatchetError>(plaintext),
        in_conversation(a2, b2),
{
    let ck = a.send_chain->0;
    let hk = a.header_key_send->0;
    let h = next_header(a);
    lemma_header_roundtrip(h);
    assert(encryption_opens(a, plaintext, ad, m));
    assert(try_header_key(Some(hk), m.header) == Some((h, hk)));
    assert(a2 == SessionView { send_chain: Some(crate::crypto::ratchet_model::chain_next(ck)), send_count: (a.send_count + 1) as u64, ..a });
    if same_epoch(a, b) {
        assert(decrypt_header(b, m.header) == Ok::<(HeaderView, Seq<u8>), RatchetError>((h, hk)));
        assert(skipped_position(b.skipped, hk, h.message_number) is None);
        assert(!is_new_remote(b, h.dh_pub));
        assert(skip_loop(b, crate::crypto::ratchet_model::skip_header_key(b), h.message_number) == (b, Ok::<(), RatchetError>(())));
        assert(skip_step(b, h.message_number) == (b, Ok::<(), RatchetError>(())));
        assert(decrypt_attempt(b, m, ad, fresh) == decrypt_in_chain(b, m, ad, h.message_number));
        assert(res == Ok::<Seq<u8>, RatchetError>(plaintext));
        assert(same_epoch(a2, b2));
        assert(receives_in_order(b2, a2));
    } else {
        assert(new_epoch(a, b));
        assert(decrypt_header(b, m.header) == Ok::<(HeaderView, Seq<u8>), RatchetError>((h, hk)));
        assert(skipped_position(b.skipped, hk, h.message_number) is None);
        assert(is_new_remote(b, h.dh_pub));
        assert(skip_step(b, h.prev_chain_length) == (b, Ok::<(), RatchetError>(()))) by {
            if b.recv_chain is Some {
                assert(skip_loop(b, crate::crypto::ratchet_model::skip_header_key(b), h.prev_chain_length) == (b, Ok::<(), RatchetError>(())));
            }
        }
        let b1 = dh_step(b, a.local_public, fresh);
        assert(b1.recv_chain == Some(ck));
        assert(skip_loop(b1, crate::crypto::ratchet_model::skip_header_key(b1), 0) == (b1, Ok::<(), RatchetError>(())));
        assert(skip_step(b1, 0) == (b1, Ok::<(), RatchetError>(())));
        assert(decrypt_attempt(b, m, ad, fresh) == decrypt_in_chain(b1, m, ad, 0));
        assert(res == Ok::<Seq<u8>, RatchetError>(plaintext));
        assert(same_epoch(a2, b2));
        assert(crate::crypto::ratchet_model::ratchets_to(b, m) == Some(a.local_public));
        assert(dh_agrees(fresh, a.local_public));
        assert(x25519_shared_secret(fresh, a.local_public) == x25519_shared_secret(a.local_secret, x25519_public_key(fresh)));
        assert(new_epoch(b2, a2));
        assert(receives_in_order(b2, a2));
    }
}

/// Two messages of one chain that arrive in the opposite order are both decrypted: the
/// later one first, which stores the message key of the earlier one, then the earlier one
/// with that stored key. Afterwards the two sessions are in conversation again, with no
/// stored key left.
///
/// It fails, and is not stated, where chance makes a key collide, as for
/// [`lemma_conversation_delivers`]: when the later message starts a new chain for the
/// receiver, its current header key must not decrypt that message's header, and the public
/// key of its fresh ratchet secret must differ from the one the sender knows for it.
pub proof fn lemma_swapped_messages_deliver(
    a: SessionView,
    b: SessionView,
    p1: Seq<u8>,
    ad1: Seq<u8>,
    a1: SessionView,
    m1: MessageView,
    p2: Seq<u8>,
    ad2: Seq<u8>,
    a2: SessionView,
    m2: MessageView,
    fresh1: Seq<u8>,
    b1: SessionView,
    r2: Result<Seq<u8>, RatchetError>,
    fresh2: Seq<u8>,
    b2: SessionView,
    r1: Result<Seq<u8>, RatchetError>,
)
    requires
        in_conversation(a, b),
        a.send_count < u64::MAX - 1,
        encrypted(a, p1, ad1, a1, Ok(m1)),
        encrypted(a1, p2, ad2, a2, Ok(m2)),
        decrypted(b, m2, ad2, fresh1, b1, r2),
        decrypted(b1, m1, ad1, fresh2, b2, r1),
        fresh1.len() == 32,
        x25519_public_key(fresh1).len() == 32,
        new_epoch(a, b) ==> try_header_key(b.header_key_recv, m2.header) is None
            && a.remote_public != Some(x25519_public_key(fresh1)),
    ensures
        r2 == Ok::<Seq<u8>, RatchetError>(p2),
        r1 == Ok::<Seq<u8>, RatchetError>(p1),
        b2.skipped.len() == 0,
        in_conversation(a2, b2),
{
    let ck0 = a.send_chain->0;
    let hk = a.header_key_send->0;
    let n0 = a.send_count;
    let mk0 = crate::crypto::ratchet_model::chain_message_key(ck0);
    let ck1 = crate::crypto::ratchet_model::chain_next(ck0);
    let h1 = next_header(a);
    let h2 = next_header(a1);
    lemma_header_roundtrip(h1);
    lemma_header_roundtrip(h2);
    assert(encryption_opens(a, p1, ad1, m1));
    assert(encryption_opens(a1, p2, ad2, m2));
    assert(a1 == SessionView { send_chain: Some(ck1), send_count: (n0 + 1) as u64, ..a });
    assert(try_header_key(Some(hk), m1.header) == Some((h1, hk)));
    assert(try_header_key(Some(hk), m2.header) == Some((h2, hk)));
    let stored = seq![(hk, n0, mk0)];
    assert(entry_is(stored[0], hk, n0));
    assert(skipped_position(stored, hk, n0) == Some(0int));
    assert(stored.remove(0) =~= Seq::<crate::crypto::ratchet_model::SkippedEntry>::empty());
    assert(skipped_position(b.skipped, hk, n0) is None);
    assert(crate::crypto::ratchet_model::skipped_insert(b.skipped, hk, n0, mk0) =~= stored);
    if same_epoch(a, b) {
        // The later message first: one key is stored, the message opens with the next one.
        assert(decrypt_header(b, m2.header) == Ok::<(HeaderView, Seq<u8>), RatchetError>((h2, hk)));
        assert(skipped_position(b.skipped, hk, h2.message_number) is None);
        assert(!is_new_remote(b, h2.dh_pub));
        let bs = SessionView { recv_chain: Some(ck1), skipped: stored, recv_count: (n0 + 1) as u64, ..b };
        assert(skip_loop(bs, hk, (n0 + 1) as u64) == (bs, Ok::<(), RatchetError>(())));
        assert(skip_loop(b, crate::crypto::ratchet_model::skip_header_key(b), (n0 + 1) as u64) == (bs, Ok::<(), RatchetError>(())));
        assert(skip_step(b, (n0 + 1) as u64) == (bs, Ok::<(), RatchetError>(())));
        assert(decrypt_attempt(b, m2, ad2, fresh1) == decrypt_in_chain(b, m2, ad2, (n0 + 1) as u64));
        assert(r2 == Ok::<Seq<u8>, RatchetError>(p2));
        assert(b1 == SessionView { recv_chain: Some(crate::crypto::ratchet_model::chain_next(ck1)), recv_count: (n0 + 2) as u64, ..bs });
        // The earlier message then opens with the stored key, which leaves the store.
        assert(decrypt_header(b1, m1.header) == Ok::<(HeaderView, Seq<u8>), RatchetError>((h1, hk)));
        assert(r1 == Ok::<Seq<u8>, RatchetError>(p1));
        assert(b2 == SessionView { skipped: Seq::empty(), ..b1 });
        assert(same_epoch(a2, b2));
        assert(receives_in_order(b2, a2));
    } else {
        assert(new_epoch(a, b));
        assert(n0 == 0);
        // The later message starts the chain: a ratchet step, then one key is stored.
        assert(decrypt_header(b, m2.header) == Ok::<(HeaderView, Seq<u8>), RatchetError>((h2, hk)));
        assert(skipped_position(b.skipped, hk, h2.message_number) is None);
        assert(is_new_remote(b, h2.dh_pub));
        assert(skip_step(b, h2.prev_chain_length) == (b, Ok::<(), RatchetError>(()))) by {
            if b.recv_chain is Some {
                assert(skip_loop(b, crate::crypto::ratchet_model::skip_header_key(b), h2.prev_chain_length) == (b, Ok::<(), RatchetError>(())));
            }
        }
        let bd = dh_step(b, a.local_public, fresh1);
        assert(bd.recv_chain == Some(ck0));
        assert(bd.header_key_recv == Some(hk));
        assert(bd.skipped == b.skipped);
        let bs = SessionView { recv_chain: Some(ck1), skipped: stored, recv_count: 1u64, ..bd };
        assert(skip_loop(bs, hk, 1u64) == (bs, Ok::<(), RatchetError>(())));
        assert(skip_loop(bd, crate::crypto::ratchet_model::skip_header_key(bd), 1u64) == (bs, Ok::<(), RatchetError>(())));
        assert(skip_step(bd, 1u64) == (bs, Ok::<(), RatchetError>(())));
        assert(decrypt_attempt(b, m2, ad2, fresh1) == decrypt_in_chain(bd, m2, ad2, 1u64));
        assert(r2 == Ok::<Seq<u8>, RatchetError>(p2));
        assert(b1 == SessionView { recv_chain: Some(crate::crypto::ratchet_model::chain_next(ck1)), recv_count: 2u64, ..bs });
        // The earlier message then opens with the stored key, which leaves the store.
        assert(decrypt_header(b1, m1.header) == Ok::<(HeaderView, Seq<u8>), RatchetError>((h1, hk)));
        assert(r1 == Ok::<Seq<u8>, RatchetError>(p1));
        assert(b2 == SessionView { skipped: Seq::empty(), ..b1 });
        assert(same_epoch(a2, b2));
        assert(crate::crypto::ratchet_model::ratchets_to(b, m2) == Some(a.local_public));
        assert(dh_agrees(fresh1, a.local_public));
        assert(x25519_shared_secret(fresh1, a.local_public) == x25519_shared_secret(a.local_secret, x25519_public_key(fresh1)));
        assert(new_epoch(b2, a2));
        assert(receives_in_order(b2, a2));
    }
}

/// Storing skipped keys keeps the store as the session keeps it.
proof fn lemma_skip_loop_keeps_store(s: SessionView, hk: Seq<u8>, until: u64)
    requires
        skipped_store_ok(s.skipped),
    ensures
        skipped_store_ok(skip_loop(s, hk, until).0.skipped),
    decreases until - s.recv_count,
{
    if s.recv_count < until {
        if let Some(ck) = s.recv_chain {
            if s.skipped.len() < MAX_SKIPPED_KEYS {
                let mk = crate::crypto::ratchet_model::chain_message_key(ck);
                lemma_insert_keeps_store(s.skipped, hk, s.recv_count, mk);
                let sk = skipped_insert(s.skipped, hk, s.recv_count, mk);
                let s1 = SessionView { recv_chain: Some(crate::crypto::ratchet_model::chain_next(ck)), ..s };
                let s2 = SessionView { skipped: sk, recv_count: (s.recv_count + 1) as u64, ..s1 };
                lemma_skip_loop_keeps_store(s2, hk, until);
            }
        }
    }
}

proof fn lemma_skip_step_keeps_store(s: SessionView, until: u64)
    requires
        skipped_store_ok(s.skipped),
    ensures
        skipped_store_ok(skip_step(s, until).0.skipped),
{
    if !(until > s.recv_count + MAX_SKIP) && s.recv_chain is Some {
        lemma_skip_loop_keeps_store(s, crate::crypto::ratchet_model::skip_header_key(s), until);
    }
}

/// A session starts with no skipped message key.
pub proof fn lemma_fresh_sessions_store_nothing(shared_secret: Seq<u8>, remote: Seq<u8>, secret: Seq<u8>)
    ensures
        init_sender_state(shared_secret, remote, secret).skipped.len() == 0,
        init_receiver_state(shared_secret, secret).skipped.len() == 0,
{
}

/// The store of skipped message keys never holds more than `MAX_SKIPPED_KEYS` keys, nor two
/// keys under the same header key and message number: neither encrypting nor decrypting,
/// successful or not, takes a session whose store is so out of it (and a session starts
/// with an empty store, [`lemma_fresh_sessions_store_nothing`]).
pub proof fn lemma_skipped_store_kept(s: SessionView, plaintext: Seq<u8>, ad: Seq<u8>, m: MessageView, fresh: Seq<u8>)
    requires
        skipped_store_ok(s.skipped),
    ensures
        skipped_store_ok(encrypt_step(s, plaintext, ad).0.skipped),
        skipped_store_ok(decrypt_step(s, m, ad, fresh).0.skipped),
{
    let out = decrypt_attempt(s, m, ad, fresh).0;
    match find_skipped(s.skipped, m.header) {
        Some(i) => {
            lemma_find_skipped_found(s.skipped, m.header);
            lemma_remove_keeps_store(s.skipped, i);
            assert(out.skipped == s.skipped.remove(i));
        },
        None => {
            lemma_header_keys_keep_store(s, m, ad, fresh);
            assert(out == decrypt_with_header_keys(s, m, ad, fresh).0);
        },
    }
}

proof fn lemma_header_keys_keep_store(s: SessionView, m: MessageView, ad: Seq<u8>, fresh: Seq<u8>)
    requires
        skipped_store_ok(s.skipped),
    ensures
        skipped_store_ok(decrypt_with_header_keys(s, m, ad, fresh).0.skipped),
{
    let out = decrypt_with_header_keys(s, m, ad, fresh).0;
    match decrypt_header(s, m.header) {
        Err(_) => {
            assert(out == s);
        },
        Ok((h, hk)) => {
            match skipped_position(s.skipped, hk, h.message_number) {
                Some(i) => {
                    lemma_skipped_position_found(s.skipped, hk, h.message_number);
                    lemma_remove_keeps_store(s.skipped, i);
                    assert(out.skipped == s.skipped.remove(i));
                },
                None => {
                    if is_new_remote(s, h.dh_pub) {
                        lemma_skip_step_keeps_store(s, h.prev_chain_length);
                        let (s1, r1) = skip_step(s, h.prev_chain_length);
                        if r1 is Ok {
                            let sd = dh_step(s1, h.dh_pub, fresh);
                            assert(sd.skipped == s1.skipped);
                            lemma_skip_step_keeps_store(sd, h.message_number);
                            assert(out.skipped == skip_step(sd, h.message_number).0.skipped);
                        } else {
                            assert(out == s1);
                        }
                    } else {
                        lemma_skip_step_keeps_store(s, h.message_number);
                        assert(out.skipped == skip_step(s, h.message_number).0.skipped);
                    }
                },
            }
        },
    }
}

/// Successive messages of a session's sending chain carry successive nonces, the same for
/// header and payload, so two messages of one chain never share a nonce.
pub proof fn lemma_successive_nonces(
    a: SessionView,
    p1: Seq<u8>,
    ad1: Seq<u8>,
    a1: SessionView,
    m1: MessageView,
    p2: Seq<u8>,
    ad2: Seq<u8>,
    a2: SessionView,
    m2: MessageView,
)
    requires
        a.send_count < u64::MAX,
        encrypted(a, p1, ad1, a1, Ok(m1)),
        encrypted(a1, p2, ad2, a2, Ok(m2)),
    ensures
        m1.header.nonce == m1.payload.nonce,
        m2.header.nonce == m2.payload.nonce,
        m2.payload.nonce == m1.payload.nonce + 1,
{
}

/// A decryption that fails leaves the session exactly as it was, whatever went wrong (a header
/// no key opens, a payload that does not authenticate, a replay, too many skipped messages),
/// so the next genuine message is tried with the same keys as before.
pub proof fn lemma_failed_decryption_keeps_session(s: SessionView, m: MessageView, ad: Seq<u8>, fresh: Seq<u8>)
    ensures
        decrypt_step(s, m, ad, fresh).1 is Err ==> decrypt_step(s, m, ad, fresh).0 == s,
{
}

} // verus!
