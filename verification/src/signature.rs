//! Signatures: one revealed secret per digest bit.

use crate::hash::{sha256, sha256_digest, Block};
use crate::scheme::{blocks_view, hashes, is_signature, KEY_PAIRS};
use vstd::prelude::*;

verus! {

/// A Lamport signature: 256 blocks, entry `p` being the secret that the
/// signer revealed for bit `p` of the message digest.
pub struct LamportSignature(Vec<Block>);

impl View for LamportSignature {
    type V = Seq<Seq<u8>>;

    closed spec fn view(&self) -> Seq<Seq<u8>> {
        blocks_view(self.0@)
    }
}

impl LamportSignature {
    #[verifier::type_invariant]
    spec fn has_all_entries(&self) -> bool {
        self.0@.len() == KEY_PAIRS
    }

    /// Wraps 256 blocks that are known to be there.
    pub(crate) fn from_selection(entries: Vec<Block>) -> (signature: Self)
        requires
            entries@.len() == KEY_PAIRS,
        ensures
            signature@ == blocks_view(entries@),
            is_signature(signature@),
    {
        LamportSignature(entries)
    }

    /// Makes a signature of `entries`, which must be exactly 256 blocks.
    pub fn from_entries(entries: Vec<Block>) -> (made: Option<Self>)
        ensures
            made is Some <==> entries@.len() == KEY_PAIRS,
            made matches Some(signature) ==> signature@ == blocks_view(entries@) && is_signature(
                signature@,
            ),
    {
        if entries.len() == KEY_PAIRS {
            Some(Self::from_selection(entries))
        } else {
            None
        }
    }

    /// The 256 revealed secrets, in digest-bit order.
    pub fn entries(&self) -> (entries: &Vec<Block>)
        ensures
            blocks_view(entries@) == self@,
            is_signature(self@),
    {
        proof {
            use_type_invariant(self);
        }
        &self.0
    }

    /// The SHA-256 digest of every revealed secret, position by position.
    pub fn commitments(&self) -> (revealed: Vec<Block>)
        ensures
            blocks_view(revealed@) == hashes(self@),
            revealed@.len() == KEY_PAIRS,
    {
        proof {
            use_type_invariant(self);
        }
        let mut revealed: Vec<Block> = Vec::new();
        let mut p: usize = 0;
        while p < KEY_PAIRS
            invariant
                p <= KEY_PAIRS,
                self.0@.len() == KEY_PAIRS,
                revealed@.len() == p,
                forall|q: int| 0 <= q < p ==> (#[trigger] revealed@[q])@ == sha256(self.0@[q]@),
            decreases KEY_PAIRS - p,
        {
            let digest: Block = sha256_digest(&self.0[p]);
            revealed.push(digest);
            p += 1;
        }
        assert(blocks_view(revealed@) =~= hashes(self@));
        revealed
    }
}

} // verus!
