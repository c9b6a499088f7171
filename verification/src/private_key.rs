//! Private keys: generation and signing.

use crate::hash::{sha256, sha256_digest, Block, MAX_INPUT_LEN};
use crate::hex::{dump, dump_pairs};
use crate::scheme::{is_key, pairs_view, select_blocks, selection, PairSeq, KEY_PAIRS};
use crate::signature::LamportSignature;
use rand::rngs::OsRng;
use rand::RngCore;
use vstd::prelude::*;

verus! {

/// A Lamport private key: 256 pairs of 32-byte secrets.
///
/// The key is sound for one signature only. Every signature reveals half of
/// the secrets that it touches, so a second one under the same key helps a
/// forger; nothing here stops a caller from signing twice.
pub struct LamportPrivateKey {
    key: Vec<(Block, Block)>,
}

impl View for LamportPrivateKey {
    type V = PairSeq;

    closed spec fn view(&self) -> PairSeq {
        pairs_view(self.key@)
    }
}

/// Overwrites `block` with bytes from the operating system's generator, by
/// `fill_bytes` of `rand::rngs::OsRng`.
///
/// Trusted, and nothing is claimed of the bytes: two calls may give any two
/// blocks. Where the operating system cannot supply the bytes the call
/// panics, which ends key generation; nothing catches or retries it.
#[verifier::external_body]
fn fill_random(block: &mut Block) {
    OsRng.fill_bytes(block);
}

impl LamportPrivateKey {
    #[verifier::type_invariant]
    spec fn has_all_pairs(&self) -> bool {
        self.key@.len() == KEY_PAIRS
    }

    /// Generates a fresh key: 512 blocks, each drawn on its own from the
    /// operating system's generator, and laid out by [`Self::from_draws`].
    pub fn new() -> (private: Self)
        ensures
            is_key(private@),
    {
        let mut draws: Vec<Block> = Vec::new();
        let mut n: usize = 0;
        while n < 2 * KEY_PAIRS
            invariant
                n <= 2 * KEY_PAIRS,
                draws@.len() == n,
            decreases 2 * KEY_PAIRS - n,
        {
            let mut block: Block = [0u8; 32];
            fill_random(&mut block);
            draws.push(block);
            n += 1;
        }
        Self::from_draws(draws).unwrap()
    }

    /// Lays 512 drawn blocks out as a key: pair `i` takes draw `2 * i` as
    /// its first secret and draw `2 * i + 1` as its second, so every secret
    /// is a draw of its own. Any other number of draws is refused.
    pub fn from_draws(draws: Vec<Block>) -> (made: Option<Self>)
        ensures
            made is Some <==> draws@.len() == 2 * KEY_PAIRS,
            made matches Some(private) ==> is_key(private@) && forall|i: int|
                0 <= i < KEY_PAIRS ==> (#[trigger] private@[i]) == (
                    draws@[2 * i]@,
                    draws@[2 * i + 1]@,
                ),
    {
        if draws.len() != 2 * KEY_PAIRS {
            return None;
        }
        let mut pairs: Vec<(Block, Block)> = Vec::new();
        let mut i: usize = 0;
        while i < KEY_PAIRS
            invariant
                i <= KEY_PAIRS,
                draws@.len() == 2 * KEY_PAIRS,
                pairs@.len() == i,
                forall|j: int|
                    0 <= j < i ==> (#[trigger] pairs@[j]) == (draws@[2 * j], draws@[2 * j + 1]),
            decreases KEY_PAIRS - i,
        {
            pairs.push((draws[2 * i], draws[2 * i + 1]));
            i += 1;
        }
        Some(LamportPrivateKey { key: pairs })
    }

    /// Makes a key of secrets that were drawn elsewhere; there must be
    /// exactly 256 pairs.
    pub fn from_pairs(pairs: Vec<(Block, Block)>) -> (made: Option<Self>)
        ensures
            made is Some <==> pairs@.len() == KEY_PAIRS,
            made matches Some(private) ==> private@ == pairs_view(pairs@) && is_key(private@),
    {
        if pairs.len() == KEY_PAIRS {
            Some(LamportPrivateKey { key: pairs })
        } else {
            None
        }
    }

    /// The 256 secret pairs, in key order.
    pub fn pairs(&self) -> (pairs: &Vec<(Block, Block)>)
        ensures
            pairs_view(pairs@) == self@,
            is_key(self@),
    {
        proof {
            use_type_invariant(self);
        }
        &self.key
    }

    /// Signs `msg`: hashes it and reveals, for every bit of the digest, the
    /// secret that stands for the bit's value.
    pub fn sign(&self, msg: &[u8]) -> (signature: LamportSignature)
        requires
            msg@.len() < MAX_INPUT_LEN,
        ensures
            signature@ == selection(self@, sha256(msg@)),
            sha256(msg@).len() == 32,
    {
        let digest: Block = sha256_digest(msg);
        self.sign_digest(&digest)
    }

    /// Signs a message whose SHA-256 digest is `digest`.
    pub fn sign_digest(&self, digest: &Block) -> (signature: LamportSignature)
        ensures
            signature@ == selection(self@, digest@),
    {
        proof {
            use_type_invariant(self);
        }
        LamportSignature::from_selection(select_blocks(&self.key, digest))
    }

    /// Renders the key for inspection, as two lines of lowercase
    /// hexadecimal: the first secrets of all pairs run together, a line
    /// break, then the second secrets run together.
    pub fn to_string(&self) -> (text: String)
        ensures
            text@ == dump(self@),
    {
        dump_pairs(&self.key)
    }
}

} // verus!
