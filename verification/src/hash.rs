//! SHA-256 over byte strings, and 32-byte blocks.
//!
//! The digest itself is computed by the `bitcoin_hashes` crate; this module
//! gives it a name that contracts can speak of.

use vstd::prelude::*;

verus! {

/// A 32-byte value: a secret, a commitment or a digest.
pub type Block = [u8; 32];

/// SHA-256 is defined for inputs shorter than 2^64 bits, that is, for fewer
/// than this many bytes.
pub const MAX_INPUT_LEN: u64 = 0x2000_0000_0000_0000;

/// The SHA-256 digest of `data`.
pub uninterp spec fn sha256(data: Seq<u8>) -> Seq<u8>;

/// Hashes `data` with `bitcoin_hashes::sha256::Hash::hash` and unwraps the
/// digest with `into_inner`.
///
/// Trusted: the 32 bytes returned are the SHA-256 digest of `data`, a
/// function of the input bytes alone. The length bound keeps the bit count
/// that the padding step encodes within 64 bits.
#[verifier::external_body]
pub(crate) fn sha256_digest(data: &[u8]) -> (digest: Block)
    requires
        data@.len() < MAX_INPUT_LEN,
    ensures
        digest@ == sha256(data@),
{
    let hashed: bitcoin_hashes::sha256::Hash = bitcoin_hashes::Hash::hash(data);
    bitcoin_hashes::Hash::into_inner(hashed)
}

/// Compares two blocks byte for byte.
pub fn blocks_equal(a: &Block, b: &Block) -> (same: bool)
    ensures
        same == (a@ == b@),
{
    let mut same: bool = true;
    let mut i: usize = 0;
    while i < 32
        invariant
            i <= 32,
            same == (forall|j: int| 0 <= j < i ==> a@[j] == b@[j]),
        decreases 32 - i,
    {
        if a[i] != b[i] {
            same = false;
        }
        i += 1;
    }
    assert(same == (a@ =~= b@));
    same
}

} // verus!
