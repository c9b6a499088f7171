//! Lamport one-time signatures over SHA-256 digests.
//!
//! A private key holds 256 pairs of 32-byte secrets, the public key the
//! SHA-256 commitment of every secret, and a signature reveals one secret per
//! bit of the message digest.
//!
//! The pair consulted for a digest bit is chosen by the bit's index inside
//! its byte, so a key's first eight pairs carry every signature; see
//! [`scheme::slot_of`]. A key must sign one message at most.

use vstd::prelude::*;

pub mod bits;
pub mod hash;
pub mod hex;
pub mod laws;
pub mod private_key;
pub mod public_key;
pub mod scheme;
pub mod signature;

pub use bits::get_bit;
pub use private_key::LamportPrivateKey;
pub use public_key::LamportPublicKey;
pub use signature::LamportSignature;

verus! {

/// Generates a fresh private key from the operating system's randomness.
pub fn generate_keypair() -> (private: LamportPrivateKey)
    ensures
        scheme::is_key(private@),
{
    LamportPrivateKey::new()
}

/// Derives the public key that belongs to `priv_key`.
pub fn derive_public_key(priv_key: &LamportPrivateKey) -> (public: LamportPublicKey)
    ensures
        public@ == scheme::commitments(priv_key@),
        scheme::is_key(public@),
{
    LamportPublicKey::new(priv_key)
}

/// Signs `msg` with `priv_key`.
pub fn sign(priv_key: &LamportPrivateKey, msg: &[u8]) -> (signature: LamportSignature)
    requires
        msg@.len() < hash::MAX_INPUT_LEN,
    ensures
        signature@ == scheme::selection(priv_key@, hash::sha256(msg@)),
        hash::sha256(msg@).len() == 32,
{
    priv_key.sign(msg)
}

/// Checks `signature` against `msg` under `pub_key`.
pub fn verify(
    pub_key: &LamportPublicKey,
    msg: &[u8],
    signature: &LamportSignature,
) -> (accepted: bool)
    requires
        msg@.len() < hash::MAX_INPUT_LEN,
    ensures
        accepted == scheme::valid_signature(pub_key@, hash::sha256(msg@), signature@),
        hash::sha256(msg@).len() == 32,
{
    pub_key.verify(msg, signature)
}

} // verus!
