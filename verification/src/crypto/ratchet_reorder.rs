//! Out-of-order delivery within a chain: when a later message of a chain arrives first, the
//! keys of the earlier ones are stored, and each stored key opens its message when it
//! arrives.
use vstd::prelude::*;

use crate::crypto::ratchet::RatchetError;
use crate::crypto::ratchet_laws::{lemma_header_roundtrip, receives_in_order, same_epoch};
use crate::crypto::ratchet_model::{
    HeaderView, MessageView, SessionView, SkippedEntry, chain_message_key, chain_next,
    decrypt_header, decrypt_in_chain, decrypt_step, decrypted, encrypt_step, encrypted, encryption_opens,
    entry_is, is_new_remote, lemma_skipped_position_found, next_header, open_payload,
    skip_header_key, skip_loop, skip_step, skipped_insert, skipped_position, try_header_key,
    MAX_SKIP, MAX_SKIPPED_KEYS, skipped_store_ok, decrypt_attempt, find_skipped, lemma_find_skipped_found, entry_opens_header,
};

verus! {

/// The chain key `j` steps after `ck`.
pub open spec fn chain_key_at(ck: Seq<u8>, j: nat) -> Seq<u8>
    decreases j,
{
    if j == 0 {
        ck
    } else {
        chain_next(chain_key_at(ck, (j - 1) as nat))
    }
}

/// `states[j]` encrypts `plaintexts[j]` with `ads[j]` into `msgs[j]`, giving `states[j + 1]`.
pub open spec fn run_step(
    states: Seq<SessionView>,
    plaintexts: Seq<Seq<u8>>,
    ads: Seq<Seq<u8>>,
    msgs: Seq<MessageView>,
    j: int,
) -> bool {
    encrypted(states[j], plaintexts[j], ads[j], states[j + 1], Ok(msgs[j]))
}

/// A run of successful encryptions by one session: each state encrypts its plaintext into
/// its message and gives the next state.
pub open spec fn encryption_run(
    states: Seq<SessionView>,
    plaintexts: Seq<Seq<u8>>,
    ads: Seq<Seq<u8>>,
    msgs: Seq<MessageView>,
) -> bool {
    &&& plaintexts.len() == msgs.len()
    &&& ads.len() == msgs.len()
    &&& states.len() == msgs.len() + 1
    &&& forall|j: int| 0 <= j < msgs.len() ==> #[trigger] run_step(states, plaintexts, ads, msgs, j)
}

/// A run of encryptions only advances the sending chain and its counter.
pub proof fn lemma_run_states(
    states: Seq<SessionView>,
    plaintexts: Seq<Seq<u8>>,
    ads: Seq<Seq<u8>>,
    msgs: Seq<MessageView>,
    j: int,
)
    requires
        encryption_run(states, plaintexts, ads, msgs),
        states[0].send_chain is Some,
        states[0].send_count + msgs.len() <= u64::MAX,
        0 <= j <= msgs.len(),
    ensures
        states[j] == (SessionView {
            send_chain: Some(chain_key_at(states[0].send_chain->0, j as nat)),
            send_count: (states[0].send_count + j) as u64,
            ..states[0]
        }),
    decreases j,
{
    if j > 0 {
        lemma_run_states(states, plaintexts, ads, msgs, j - 1);
        assert(run_step(states, plaintexts, ads, msgs, j - 1));
    }
}

/// In a run of encryptions, message `j` carries the header with the session's public key,
/// its previous chain length and message number `n + j`, where `n` is the counter before the
/// run, encrypted under the session's sending header key; the counter ends at `n` plus the
/// number of messages.
pub proof fn lemma_run_headers(
    states: Seq<SessionView>,
    plaintexts: Seq<Seq<u8>>,
    ads: Seq<Seq<u8>>,
    msgs: Seq<MessageView>,
    j: int,
)
    requires
        encryption_run(states, plaintexts, ads, msgs),
        states[0].send_chain is Some,
        states[0].local_public.len() == 32,
        states[0].send_count + msgs.len() <= u64::MAX,
        0 <= j < msgs.len(),
    ensures
        states[0].header_key_send is Some,
        try_header_key(states[0].header_key_send, msgs[j].header) == Some(
            (
                HeaderView {
                    dh_pub: states[0].local_public,
                    prev_chain_length: states[0].prev_chain_length,
                    message_number: (states[0].send_count + j) as u64,
                },
                states[0].header_key_send->0,
            ),
        ),
        states.last().send_count == states[0].send_count + msgs.len(),
{
    lemma_run_states(states, plaintexts, ads, msgs, j);
    lemma_run_states(states, plaintexts, ads, msgs, msgs.len() as int);
    assert(run_step(states, plaintexts, ads, msgs, j));
    let sj = states[j];
    assert(encryption_opens(sj, plaintexts[j], ads[j], msgs[j]));
    lemma_header_roundtrip(next_header(sj));
}

/// The keys a receiver stores for the first `k` messages of a chain that starts at chain key
/// `ck` and message number `n`, all under header key `hk`.
pub open spec fn stored_keys(hk: Seq<u8>, n: u64, ck: Seq<u8>, k: nat) -> Seq<SkippedEntry> {
    Seq::new(k, |j: int| (hk, (n + j) as u64, chain_message_key(chain_key_at(ck, j as nat))))
}

/// Skipping from message `n + i` to message `n + k` of a chain stores the keys of the
/// messages in between, after those stored before.
proof fn lemma_skip_run(s: SessionView, hk: Seq<u8>, n: u64, ck: Seq<u8>, i: nat, k: nat)
    requires
        i <= k,
        n + k <= u64::MAX,
        k <= MAX_SKIP,
        s.recv_chain == Some(chain_key_at(ck, i)),
        s.recv_count == n + i,
        s.skipped == stored_keys(hk, n, ck, i),
    ensures
        skip_loop(s, hk, (n + k) as u64) == (
            (SessionView {
                recv_chain: Some(chain_key_at(ck, k)),
                recv_count: (n + k) as u64,
                skipped: stored_keys(hk, n, ck, k),
                ..s
            }),
            Ok::<(), RatchetError>(()),
        ),
    decreases k - i,
{
    if i < k {
        let cki = chain_key_at(ck, i);
        let mk = chain_message_key(cki);
        let before = stored_keys(hk, n, ck, i);
        assert forall|j: int| 0 <= j < before.len() implies !entry_is(#[trigger] before[j], hk, (n + i) as u64) by {
            assert(before[j].1 == (n + j) as u64);
        }
        assert(skipped_position(before, hk, (n + i) as u64) is None);
        assert(skipped_insert(before, hk, (n + i) as u64, mk) =~= stored_keys(hk, n, ck, i + 1));
        assert(chain_key_at(ck, i + 1) == chain_next(cki));
        let s1 = SessionView { recv_chain: Some(chain_next(cki)), ..s };
        let s2 = SessionView { skipped: stored_keys(hk, n, ck, i + 1), recv_count: (n + i + 1) as u64, ..s1 };
        lemma_skip_run(s2, hk, n, ck, i + 1, k);
    } else {
        assert(s.skipped =~= stored_keys(hk, n, ck, k));
    }
}

/// Whether the stored entry `e` opens message `m`: it is kept under header key `hk`, the
/// message's header opens under `hk` to the entry's message number, and the entry's key
/// opens the payload with associated data `ad` to `p`.
pub open spec fn opens_from_store(hk: Seq<u8>, e: SkippedEntry, m: MessageView, ad: Seq<u8>, p: Seq<u8>) -> bool {
    &&& e.0 == hk
    &&& try_header_key(Some(hk), m.header) matches Some((h, k)) && h.message_number == e.1
    &&& open_payload(e.2, m, ad) == Ok::<Seq<u8>, RatchetError>(p)
}

/// When the last of several messages of a chain arrives first, it is decrypted, the receiver
/// stays in step with the sender, and its store holds one key for each earlier message,
/// which opens that message.
pub proof fn lemma_late_message_stores_earlier_keys(
    states: Seq<SessionView>,
    plaintexts: Seq<Seq<u8>>,
    ads: Seq<Seq<u8>>,
    msgs: Seq<MessageView>,
    b: SessionView,
    fresh: Seq<u8>,
    b1: SessionView,
    r: Result<Seq<u8>, RatchetError>,
)
    requires
        encryption_run(states, plaintexts, ads, msgs),
        msgs.len() >= 1,
        msgs.len() <= MAX_SKIP + 1,
        states[0].send_count + msgs.len() <= u64::MAX,
        receives_in_order(states[0], b),
        same_epoch(states[0], b),
        decrypted(b, msgs.last(), ads.last(), fresh, b1, r),
    ensures
        r == Ok::<Seq<u8>, RatchetError>(plaintexts.last()),
        same_epoch(states.last(), b1),
        b1.skipped.len() == msgs.len() - 1,
        skipped_store_ok(b1.skipped),
        forall|j: int|
            0 <= j < b1.skipped.len() ==> opens_from_store(
                b1.header_key_recv->0,
                #[trigger] b1.skipped[j],
                msgs[j],
                ads[j],
                plaintexts[j],
            ),
{
    let a = states[0];
    let ck = a.send_chain->0;
    let hk = a.header_key_send->0;
    let n = a.send_count;
    let k = (msgs.len() - 1) as nat;
    assert(run_step(states, plaintexts, ads, msgs, k as int));
    lemma_run_states(states, plaintexts, ads, msgs, k as int);
    lemma_run_states(states, plaintexts, ads, msgs, (k + 1) as int);
    let last = states[k as int];
    let h = next_header(last);
    lemma_header_roundtrip(h);
    assert(encryption_opens(last, plaintexts.last(), ads.last(), msgs.last()));
    assert(try_header_key(Some(hk), msgs.last().header) == Some((h, hk)));
    assert(decrypt_header(b, msgs.last().header) == Ok::<(HeaderView, Seq<u8>), RatchetError>((h, hk)));
    assert(b.skipped =~= stored_keys(hk, n, ck, 0));
    assert(skipped_position(b.skipped, hk, h.message_number) is None);
    assert(!is_new_remote(b, h.dh_pub));
    assert(chain_key_at(ck, 0) == ck);
    lemma_skip_run(b, hk, n, ck, 0, k);
    assert(skip_header_key(b) == hk);
    let bs = SessionView {
        recv_chain: Some(chain_key_at(ck, k)),
        recv_count: (n + k) as u64,
        skipped: stored_keys(hk, n, ck, k),
        ..b
    };
    assert(skip_step(b, (n + k) as u64) == (bs, Ok::<(), RatchetError>(())));
    assert(decrypt_attempt(b, msgs.last(), ads.last(), fresh) == decrypt_in_chain(b, msgs.last(), ads.last(), (n + k) as u64));
    assert(r == Ok::<Seq<u8>, RatchetError>(plaintexts.last()));
    assert(chain_key_at(ck, k + 1) == chain_next(chain_key_at(ck, k)));
    assert(same_epoch(states.last(), b1));
    let st = b1.skipped;
    assert(st == stored_keys(hk, n, ck, k));
    assert forall|i: int, j: int| 0 <= i < j < st.len() implies !entry_is(#[trigger] st[i], st[j].0, #[trigger] st[j].1) by {
        assert(st[i].1 == (n + i) as u64);
        assert(st[j].1 == (n + j) as u64);
    }
    assert forall|j: int| 0 <= j < st.len() implies opens_from_store(hk, #[trigger] st[j], msgs[j], ads[j], plaintexts[j]) by {
        assert(run_step(states, plaintexts, ads, msgs, j));
        lemma_run_states(states, plaintexts, ads, msgs, j);
        let sj = states[j];
        assert(encryption_opens(sj, plaintexts[j], ads[j], msgs[j]));
        lemma_header_roundtrip(next_header(sj));
        assert(try_header_key(Some(hk), msgs[j].header) == Some((next_header(sj), hk)));
    }
}

/// A message whose key is in the store opens with that key, whatever ratchet steps the
/// session has taken since the key was stored: decrypting it gives its plaintext, and of the
/// state only the store changes, losing that one key and keeping every other.
///
/// It fails, and is not stated, where chance makes a key collide: the header key of another
/// stored entry must not open the message's header to that entry's message number.
pub proof fn lemma_stored_key_opens(
    s: SessionView,
    e: SkippedEntry,
    m: MessageView,
    ad: Seq<u8>,
    p: Seq<u8>,
    fresh: Seq<u8>,
    s2: SessionView,
    r: Result<Seq<u8>, RatchetError>,
)
    requires
        skipped_store_ok(s.skipped),
        s.skipped.contains(e),
        opens_from_store(e.0, e, m, ad, p),
        forall|x: SkippedEntry| s.skipped.contains(x) && x != e ==> !entry_opens_header(x, m.header),
        decrypted(s, m, ad, fresh, s2, r),
    ensures
        r == Ok::<Seq<u8>, RatchetError>(p),
        s2 == (SessionView { skipped: s2.skipped, ..s }),
        s2.skipped.len() == s.skipped.len() - 1,
        !s2.skipped.contains(e),
        forall|x: SkippedEntry| s.skipped.contains(x) && x != e ==> #[trigger] s2.skipped.contains(x),
{
    let i = choose|i: int| 0 <= i < s.skipped.len() && s.skipped[i] == e;
    assert(entry_opens_header(s.skipped[i], m.header));
    lemma_find_skipped_found(s.skipped, m.header);
    let q = find_skipped(s.skipped, m.header)->0;
    assert(q == i) by {
        if q != i {
            assert(s.skipped.contains(s.skipped[q]));
            if s.skipped[q] == e {
                if q < i {
                    assert(!entry_is(s.skipped[q], s.skipped[i].0, s.skipped[i].1));
                } else {
                    assert(!entry_is(s.skipped[i], s.skipped[q].0, s.skipped[q].1));
                }
            }
        }
    }
    assert(decrypt_attempt(s, m, ad, fresh) == (SessionView { skipped: s.skipped.remove(i), ..s }, open_payload(e.2, m, ad)));
    assert(r == Ok::<Seq<u8>, RatchetError>(p));
    let out = s.skipped.remove(i);
    assert(s2.skipped == out);
    assert(!out.contains(e)) by {
        if out.contains(e) {
            let j = choose|j: int| 0 <= j < out.len() && out[j] == e;
            let j0 = if j < i { j } else { j + 1 };
            assert(out[j] == s.skipped[j0]);
            if j0 < i {
                assert(!entry_is(s.skipped[j0], s.skipped[i].0, s.skipped[i].1));
            } else {
                assert(!entry_is(s.skipped[i], s.skipped[j0].0, s.skipped[j0].1));
            }
        }
    }
    assert forall|x: SkippedEntry| s.skipped.contains(x) && x != e implies #[trigger] out.contains(x) by {
        let j = choose|j: int| 0 <= j < s.skipped.len() && s.skipped[j] == x;
        if j < i {
            assert(out[j] == x);
        } else {
            assert(j != i);
            assert(out[j - 1] == x);
        }
    }
}

/// Encrypting changes only the sending chain and its counter: the receiving side and the
/// store of skipped keys stay as they are, so a stored key still opens its message after the
/// session has sent (as when a reply goes out before a late message arrives).
pub proof fn lemma_sending_keeps_receiving_side(s: SessionView, plaintext: Seq<u8>, ad: Seq<u8>)
    ensures
        encrypt_step(s, plaintext, ad).0 == (SessionView {
            send_chain: encrypt_step(s, plaintext, ad).0.send_chain,
            send_count: encrypt_step(s, plaintext, ad).0.send_count,
            ..s
        }),
{
}

/// Each key a receiver stores for the messages of a sender's run opens its message.
proof fn lemma_run_entries_open(
    states: Seq<SessionView>,
    plaintexts: Seq<Seq<u8>>,
    ads: Seq<Seq<u8>>,
    msgs: Seq<MessageView>,
    k: nat,
)
    requires
        encryption_run(states, plaintexts, ads, msgs),
        states[0].send_chain is Some,
        states[0].local_public.len() == 32,
        states[0].send_count + msgs.len() <= u64::MAX,
        k <= msgs.len(),
    ensures
        forall|j: int|
            0 <= j < k ==> opens_from_store(
                states[0].header_key_send->0,
                #[trigger] stored_keys(states[0].header_key_send->0, states[0].send_count, states[0].send_chain->0, k)[j],
                msgs[j],
                ads[j],
                plaintexts[j],
            ),
{
    let hk = states[0].header_key_send->0;
    let st = stored_keys(hk, states[0].send_count, states[0].send_chain->0, k);
    assert forall|j: int| 0 <= j < k implies opens_from_store(hk, #[trigger] st[j], msgs[j], ads[j], plaintexts[j]) by {
        assert(run_step(states, plaintexts, ads, msgs, j));
        lemma_run_states(states, plaintexts, ads, msgs, j);
        let sj = states[j];
        assert(encryption_opens(sj, plaintexts[j], ads[j], msgs[j]));
        lemma_header_roundtrip(next_header(sj));
        assert(try_header_key(Some(hk), msgs[j].header) == Some((next_header(sj), hk)));
    }
}

/// Whether the store holds a key that opens message `m` with `ad` to `p`.
pub open spec fn has_stored_key(sk: Seq<SkippedEntry>, m: MessageView, ad: Seq<u8>, p: Seq<u8>) -> bool {
    exists|e: SkippedEntry| sk.contains(e) && #[trigger] opens_from_store(e.0, e, m, ad, p)
}

/// Skipping under header key `hk` keeps every stored entry kept under another header key.
proof fn lemma_skip_loop_keeps_others(s: SessionView, hk: Seq<u8>, until: u64, e: SkippedEntry)
    requires
        s.skipped.contains(e),
        e.0 != hk,
    ensures
        skip_loop(s, hk, until).0.skipped.contains(e),
    decreases until - s.recv_count,
{
    if s.recv_count < until {
        if let Some(ck) = s.recv_chain {
            if s.skipped.len() < MAX_SKIPPED_KEYS {
                let mk = chain_message_key(ck);
                lemma_skipped_position_found(s.skipped, hk, s.recv_count);
                let sk = skipped_insert(s.skipped, hk, s.recv_count, mk);
                let i = choose|i: int| 0 <= i < s.skipped.len() && s.skipped[i] == e;
                match skipped_position(s.skipped, hk, s.recv_count) {
                    Some(p) => {
                        assert(p != i);
                        assert(sk[i] == e);
                    },
                    None => {
                        assert(sk[i] == e);
                    },
                }
                let s1 = SessionView { recv_chain: Some(chain_next(ck)), ..s };
                let s2 = SessionView { skipped: sk, recv_count: (s.recv_count + 1) as u64, ..s1 };
                lemma_skip_loop_keeps_others(s2, hk, until, e);
            }
        }
    }
}

/// When a message of a sender's new chain arrives before some messages of its previous
/// chain, decrypting it stores a key for each of those earlier messages, which opens that
/// message: the stored keys serve the late messages after the ratchet step
/// ([`lemma_stored_key_opens`]).
///
/// `states`, `msgs` are the sender's run on the previous chain, of which the receiver `b`
/// has received nothing; `m` is a message whose header `b`'s next receiving header key opens
/// to a new public key and to the length of that run as the previous chain length. It fails,
/// and is not stated, where chance makes a key collide: `b`'s current header key must not
/// open `m`'s header.
pub proof fn lemma_ratchet_stores_previous_chain(
    states: Seq<SessionView>,
    plaintexts: Seq<Seq<u8>>,
    ads: Seq<Seq<u8>>,
    msgs: Seq<MessageView>,
    b: SessionView,
    m: MessageView,
    ad: Seq<u8>,
    fresh: Seq<u8>,
    b1: SessionView,
    r: Result<Seq<u8>, RatchetError>,
)
    requires
        encryption_run(states, plaintexts, ads, msgs),
        msgs.len() <= MAX_SKIP,
        states[0].send_count + msgs.len() <= u64::MAX,
        receives_in_order(states[0], b),
        same_epoch(states[0], b),
        try_header_key(b.header_key_recv, m.header) is None,
        try_header_key(b.next_header_key_recv, m.header) matches Some((h, k))
            && h.dh_pub != states[0].local_public
            && h.prev_chain_length == states[0].send_count + msgs.len(),
        decrypted(b, m, ad, fresh, b1, r),
        r is Ok,
    ensures
        forall|j: int| 0 <= j < msgs.len() ==> #[trigger] has_stored_key(b1.skipped, msgs[j], ads[j], plaintexts[j]),
{
    let a = states[0];
    let ck = a.send_chain->0;
    let hk = a.header_key_send->0;
    let n = a.send_count;
    let k = msgs.len() as nat;
    let (h, hk2) = try_header_key(b.next_header_key_recv, m.header)->0;
    assert(hk2 != hk);
    assert(find_skipped(b.skipped, m.header) is None);
    assert(decrypt_header(b, m.header) == Ok::<(HeaderView, Seq<u8>), RatchetError>((h, hk2)));
    assert(skipped_position(b.skipped, hk2, h.message_number) is None);
    assert(is_new_remote(b, h.dh_pub));
    assert(b.skipped =~= stored_keys(hk, n, ck, 0));
    assert(chain_key_at(ck, 0) == ck);
    lemma_skip_run(b, hk, n, ck, 0, k);
    let st = stored_keys(hk, n, ck, k);
    let bs = SessionView { recv_chain: Some(chain_key_at(ck, k)), recv_count: (n + k) as u64, skipped: st, ..b };
    assert(skip_step(b, h.prev_chain_length) == (bs, Ok::<(), RatchetError>(())));
    let bd = crate::crypto::ratchet_model::dh_step(bs, h.dh_pub, fresh);
    assert(bd.skipped == st);
    assert(bd.header_key_recv == Some(hk2));
    assert(decrypt_attempt(b, m, ad, fresh) == decrypt_in_chain(bd, m, ad, h.message_number));
    let (b3, r3) = skip_step(bd, h.message_number);
    lemma_run_entries_open(states, plaintexts, ads, msgs, k);
    assert forall|j: int| 0 <= j < msgs.len() implies #[trigger] has_stored_key(b1.skipped, msgs[j], ads[j], plaintexts[j]) by {
        let e = st[j];
        assert(st.contains(e));
        assert(e.0 == hk);
        if !(h.message_number > bd.recv_count + MAX_SKIP) && bd.recv_chain is Some {
            lemma_skip_loop_keeps_others(bd, crate::crypto::ratchet_model::skip_header_key(bd), h.message_number, e);
        }
        assert(b3.skipped.contains(e));
        assert(b1.skipped == b3.skipped);
        assert(opens_from_store(e.0, e, msgs[j], ads[j], plaintexts[j]));
    }
}

} // verus!
