//! Public keys: derivation from a private key, and verification.

use crate::hash::{sha256, sha256_digest, Block, MAX_INPUT_LEN};
use crate::hex::{dump, dump_pairs};
use crate::private_key::LamportPrivateKey;
use crate::scheme::{
    blocks_view, commitments, commitments_match, count_agreeing, is_key, lemma_agreeing_all,
    pairs_view, select_blocks, selection, valid_signature, PairSeq, KEY_PAIRS,
};
use crate::signature::LamportSignature;
use vstd::prelude::*;

verus! {

/// A Lamport public key: for every secret of the private key, in the same
/// place, its SHA-256 digest.
pub struct LamportPublicKey {
    key: Vec<(Block, Block)>,
}

impl View for LamportPublicKey {
    type V = PairSeq;

    closed spec fn view(&self) -> PairSeq {
        pairs_view(self.key@)
    }
}

impl LamportPublicKey {
    #[verifier::type_invariant]
    spec fn has_all_pairs(&self) -> bool {
        self.key@.len() == KEY_PAIRS
    }

    /// Derives the public key of `priv_key` by hashing each of its secrets.
    pub fn new(priv_key: &LamportPrivateKey) -> (public: Self)
        ensures
            public@ == commitments(priv_key@),
            is_key(public@),
    {
        let secrets = priv_key.pairs();
        let mut hashed: Vec<(Block, Block)> = Vec::new();
        let mut n: usize = 0;
        while n < KEY_PAIRS
            invariant
                n <= KEY_PAIRS,
                secrets@.len() == KEY_PAIRS,
                hashed@.len() == n,
                forall|i: int|
                    0 <= i < n ==> (#[trigger] hashed@[i]).0@ == sha256(secrets@[i].0@)
                        && hashed@[i].1@ == sha256(secrets@[i].1@),
            decreases KEY_PAIRS - n,
        {
            let pair = &secrets[n];
            let first: Block = sha256_digest(&pair.0);
            let second: Block = sha256_digest(&pair.1);
            hashed.push((first, second));
            n += 1;
        }
        assert(pairs_view(hashed@) =~= commitments(pairs_view(secrets@)));
        LamportPublicKey { key: hashed }
    }

    /// Makes a key of commitments that were derived elsewhere; there must be
    /// exactly 256 pairs.
    pub fn from_pairs(pairs: Vec<(Block, Block)>) -> (made: Option<Self>)
        ensures
            made is Some <==> pairs@.len() == KEY_PAIRS,
            made matches Some(public) ==> public@ == pairs_view(pairs@) && is_key(public@),
    {
        if pairs.len() == KEY_PAIRS {
            Some(LamportPublicKey { key: pairs })
        } else {
            None
        }
    }

    /// The 256 commitment pairs, in key order.
    pub fn pairs(&self) -> (pairs: &Vec<(Block, Block)>)
        ensures
            pairs_view(pairs@) == self@,
            is_key(self@),
    {
        proof {
            use_type_invariant(self);
        }
        &self.key
    }

    /// Checks `signature` against `msg`: hashes the message, hashes every
    /// revealed secret, and accepts when all 256 hashes are the commitments
    /// that the digest selects from this key.
    pub fn verify(&self, msg: &[u8], signature: &LamportSignature) -> (accepted: bool)
        requires
            msg@.len() < MAX_INPUT_LEN,
        ensures
            accepted == valid_signature(self@, sha256(msg@), signature@),
            sha256(msg@).len() == 32,
    {
        let digest: Block = sha256_digest(msg);
        let revealed: Vec<Block> = signature.commitments();
        self.verify_commitments(&digest, &revealed)
    }

    /// The commitments that a valid signature for a message with digest
    /// `digest` hashes to, position by position.
    pub fn expected_commitments(&self, digest: &Block) -> (expected: Vec<Block>)
        ensures
            blocks_view(expected@) == selection(self@, digest@),
            expected@.len() == KEY_PAIRS,
    {
        proof {
            use_type_invariant(self);
        }
        select_blocks(&self.key, digest)
    }

    /// Decides a verification from hashes already taken: `digest` is the
    /// message digest and `revealed` the digests of the signature's entries.
    ///
    /// Every position is compared and the agreeing ones are counted; the
    /// answer is yes only when all 256 agree. A list of any other length is
    /// refused.
    pub fn verify_commitments(&self, digest: &Block, revealed: &Vec<Block>) -> (accepted: bool)
        ensures
            accepted == commitments_match(self@, digest@, blocks_view(revealed@)),
    {
        let expected: Vec<Block> = self.expected_commitments(digest);
        let count: usize = count_agreeing(&expected, revealed);
        proof {
            let e = blocks_view(expected@);
            let r = blocks_view(revealed@);
            lemma_agreeing_all(e, r, KEY_PAIRS as nat);
            if revealed@.len() == KEY_PAIRS && count == KEY_PAIRS {
                assert(r =~= e);
            }
        }
        revealed.len() == KEY_PAIRS && count == KEY_PAIRS
    }

    /// Renders the key for inspection, as two lines of lowercase
    /// hexadecimal: the first commitments of all pairs run together, a line
    /// break, then the second commitments run together.
    pub fn to_string(&self) -> (text: String)
        ensures
            text@ == dump(self@),
    {
        dump_pairs(&self.key)
    }
}

} // verus!
