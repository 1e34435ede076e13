//! X25519 key agreement over plain 32-byte keys.
use vstd::prelude::*;

use rand_core::OsRng;
use x25519_dalek::{PublicKey, StaticSecret};

use crate::crypto::aead::KeyMaterial;

verus! {

/// The X25519 public key of a 32-byte secret.
pub uninterp spec fn x25519_public_key(secret: Seq<u8>) -> Seq<u8>;

/// The X25519 shared secret of a 32-byte secret and a 32-byte public key.
pub uninterp spec fn x25519_shared_secret(secret: Seq<u8>, public: Seq<u8>) -> Seq<u8>;

/// Diffie-Hellman agreement for one computation: whoever holds the secret behind `public`
/// computes, with the public key of `secret`, the same shared secret.
pub open spec fn dh_agrees(secret: Seq<u8>, public: Seq<u8>) -> bool {
    forall|other: Seq<u8>|
        #![trigger x25519_public_key(other)]
        other.len() == 32 && public == x25519_public_key(other) ==> x25519_shared_secret(secret, public)
            == x25519_shared_secret(other, x25519_public_key(secret))
}

/// Calls `PublicKey::from(&StaticSecret::from(secret))` and returns its bytes.
#[verifier::external_body]
pub(crate) fn x25519_public(secret: &KeyMaterial) -> (public: KeyMaterial)
    ensures
        public@ == x25519_public_key(secret@),
{
    PublicKey::from(&StaticSecret::from(*secret)).to_bytes()
}

/// Calls `StaticSecret::from(secret).diffie_hellman(&PublicKey::from(public))` and returns
/// the bytes of the shared secret. As the x25519-dalek documentation shows, the holder of the
/// secret behind `public` computes the same bytes from the public key of `secret`.
#[verifier::external_body]
pub(crate) fn x25519_diffie_hellman(secret: &KeyMaterial, public: &KeyMaterial) -> (shared: KeyMaterial)
    ensures
        shared@ == x25519_shared_secret(secret@, public@),
        forall|other: Seq<u8>|
            #![trigger x25519_public_key(other)]
            other.len() == 32 && public@ == x25519_public_key(other) ==> shared@
                == x25519_shared_secret(other, x25519_public_key(secret@)),
{
    StaticSecret::from(*secret).diffie_hellman(&PublicKey::from(*public)).to_bytes()
}

/// Calls `StaticSecret::random_from_rng(OsRng)` and returns its bytes: a fresh secret from
/// the operating system's random source, of which nothing more is known.
#[verifier::external_body]
pub(crate) fn x25519_random_secret() -> (secret: KeyMaterial) {
    StaticSecret::random_from_rng(OsRng).to_bytes()
}

} // verus!
