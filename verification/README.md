# conanprotocol

The protocol library of conan, an end-to-end encrypted chat over Tor onion services,
written in Verus: the executable code carries `requires`/`ensures` contracts that Verus
proves.

- `src/crypto/`: the AEAD and HKDF layer (`aead.rs`), X25519 (`dh.rs`), the Double Ratchet
  session (`ratchet.rs`), its mathematical model (`ratchet_model.rs`) and the laws proved of
  it (`ratchet_laws.rs`, `ratchet_reorder.rs`): two sessions in conversation decrypt each
  other's messages, in order or out of order (also after a ratchet step), a failed decryption
  leaves the session as it was, and the store of skipped keys stays capped and free of
  duplicates.
- `src/wire.rs`, `src/msg.rs`, `src/comm/`: the byte encoding of peer messages and of the
  daemon's commands and responses, with round-trip lemmas; what the daemon does with a
  command (`comm/daemon.rs`).
- `src/operations.rs`: encryption under a connection's shared secret, the signed key
  exchange and its framing.
- `src/config/`, `src/entities/`, `src/requests/`: configuration resolution, peer and chat
  records, the relay list.
- `src/tui/`: how key presses and the daemon's responses change the terminal interface.
- `app/`: the daemon and the terminal interface around the library (sockets, database,
  Tor, terminal drawing).
- `tests/`: tests run against the compiled library.

Calls into outside crates (hkdf, chacha20poly1305, x25519-dalek, ed25519-dalek, rand,
chrono and a few std functions) stand behind small `#[verifier::external_body]` wrappers
whose contracts say what those crates document.
