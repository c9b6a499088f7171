//! The signature scheme as mathematics: what a digest selects from a key,
//! what a public key commits to, and when a signature is valid.
//!
//! Keys and signatures are modelled as sequences of byte strings. The
//! executable helpers at the end compute the same values on arrays.

use crate::bits::{bits_of, get_bit};
use crate::hash::{blocks_equal, sha256, Block};
use vstd::prelude::*;

verus! {

/// Number of secret pairs in a key, and of entries in a signature: one per
/// bit of a SHA-256 digest.
pub const KEY_PAIRS: usize = 256;

/// A key as a sequence of pairs of byte strings.
pub type PairSeq = Seq<(Seq<u8>, Seq<u8>)>;

/// The byte strings held by a sequence of pairs of blocks.
pub open spec fn pairs_view(pairs: Seq<(Block, Block)>) -> PairSeq {
    Seq::new(pairs.len(), |i: int| (pairs[i].0@, pairs[i].1@))
}

/// The byte strings held by a sequence of blocks.
pub open spec fn blocks_view(blocks: Seq<Block>) -> Seq<Seq<u8>> {
    Seq::new(blocks.len(), |i: int| blocks[i]@)
}

/// A well-formed key: 256 pairs of 32-byte strings.
pub open spec fn is_key(pairs: PairSeq) -> bool {
    &&& pairs.len() == KEY_PAIRS
    &&& forall|i: int|
        0 <= i < pairs.len() ==> (#[trigger] pairs[i]).0.len() == 32 && pairs[i].1.len() == 32
}

/// A well-formed signature: 256 strings of 32 bytes.
pub open spec fn is_signature(entries: Seq<Seq<u8>>) -> bool {
    &&& entries.len() == KEY_PAIRS
    &&& forall|i: int| 0 <= i < entries.len() ==> (#[trigger] entries[i]).len() == 32
}

/// The pair that is consulted for the digest bit at `position`.
///
/// The slot is the position of the bit inside its byte, not inside the whole
/// digest. Only the first eight pairs of a key ever take part, each of them
/// once for every digest byte. Signing and verification both go through this
/// function, so the two always agree on the slot.
pub open spec fn slot_of(position: int) -> int {
    position % 8
}

/// The member of `pair` that stands for `bit`: the first for 0, the second
/// for 1.
pub open spec fn pick(pair: (Seq<u8>, Seq<u8>), bit: bool) -> Seq<u8> {
    if bit {
        pair.1
    } else {
        pair.0
    }
}

/// What `digest` selects from `pairs`: for each of the 256 digest bits, in
/// byte-major and low-bit-first order, the member of the bit's pair that
/// stands for the bit's value.
///
/// On a private key this is the signature of the digest; on a public key it
/// is the list of commitments that a valid signature must hash to.
pub open spec fn selection(pairs: PairSeq, digest: Seq<u8>) -> Seq<Seq<u8>> {
    Seq::new(KEY_PAIRS as nat, |p: int| pick(pairs[slot_of(p)], bits_of(digest)[p]))
}

/// The public key of a private key: every secret replaced by its SHA-256
/// digest, position by position.
pub open spec fn commitments(secrets: PairSeq) -> PairSeq {
    Seq::new(secrets.len(), |i: int| (sha256(secrets[i].0), sha256(secrets[i].1)))
}

/// The SHA-256 digest of every entry of `entries`.
pub open spec fn hashes(entries: Seq<Seq<u8>>) -> Seq<Seq<u8>> {
    Seq::new(entries.len(), |i: int| sha256(entries[i]))
}

/// Whether the hashes `revealed` answer the public key `public` on `digest`:
/// there are 256 of them and each equals the commitment that the digest
/// selects at its position.
pub open spec fn commitments_match(
    public: PairSeq,
    digest: Seq<u8>,
    revealed: Seq<Seq<u8>>,
) -> bool {
    revealed == selection(public, digest)
}

/// Whether `signature` is valid for a message with digest `digest` under the
/// public key `public`.
pub open spec fn valid_signature(
    public: PairSeq,
    digest: Seq<u8>,
    signature: Seq<Seq<u8>>,
) -> bool {
    commitments_match(public, digest, hashes(signature))
}

/// How many of the first `n` positions hold equal entries in `expected` and
/// `revealed`. A position beyond the end of either sequence never counts.
pub open spec fn agreeing(expected: Seq<Seq<u8>>, revealed: Seq<Seq<u8>>, n: nat) -> nat
    decreases n,
{
    if n == 0 {
        0
    } else {
        let last = n - 1;
        let here: nat = if last < expected.len() && last < revealed.len() && expected[last]
            == revealed[last] {
            1
        } else {
            0
        };
        agreeing(expected, revealed, last as nat) + here
    }
}

/// No more positions agree than were looked at, and all of them agree exactly
/// when every one of them holds equal entries.
pub proof fn lemma_agreeing_all(expected: Seq<Seq<u8>>, revealed: Seq<Seq<u8>>, n: nat)
    ensures
        agreeing(expected, revealed, n) <= n,
        agreeing(expected, revealed, n) == n <==> (n <= expected.len() && n <= revealed.len()
            && forall|p: int| 0 <= p < n ==> expected[p] == revealed[p]),
    decreases n,
{
    if n > 0 {
        lemma_agreeing_all(expected, revealed, (n - 1) as nat);
    }
}

/// Selects from `pairs`, for every bit of `digest`, the member that stands
/// for the bit's value.
pub(crate) fn select_blocks(pairs: &Vec<(Block, Block)>, digest: &Block) -> (chosen: Vec<Block>)
    requires
        pairs@.len() == KEY_PAIRS,
    ensures
        blocks_view(chosen@) == selection(pairs_view(pairs@), digest@),
        chosen@.len() == KEY_PAIRS,
{
    let mut chosen: Vec<Block> = Vec::new();
    let mut b: usize = 0;
    while b < 32
        invariant
            b <= 32,
            pairs@.len() == KEY_PAIRS,
            chosen@.len() == 8 * b,
            forall|p: int|
                0 <= p < chosen@.len() ==> (#[trigger] chosen@[p])@ == selection(
                    pairs_view(pairs@),
                    digest@,
                )[p],
        decreases 32 - b,
    {
        let byte: u8 = digest[b];
        let mut i: u8 = 0;
        while i < 8
            invariant
                b < 32,
                i <= 8,
                byte == digest@[b as int],
                pairs@.len() == KEY_PAIRS,
                chosen@.len() == 8 * b + i,
                forall|p: int|
                    0 <= p < chosen@.len() ==> (#[trigger] chosen@[p])@ == selection(
                        pairs_view(pairs@),
                        digest@,
                    )[p],
            decreases 8 - i,
        {
            let ghost position: int = 8 * b + i;
            assert(position / 8 == b && position % 8 == i);
            let pair = &pairs[i as usize];
            let block: Block = if get_bit(byte, i).unwrap() {
                pair.1
            } else {
                pair.0
            };
            chosen.push(block);
            i += 1;
        }
        b += 1;
    }
    assert(blocks_view(chosen@) =~= selection(pairs_view(pairs@), digest@));
    chosen
}

/// Counts the positions at which `expected` and `revealed` hold equal blocks.
pub fn count_agreeing(expected: &Vec<Block>, revealed: &Vec<Block>) -> (count: usize)
    ensures
        count == agreeing(blocks_view(expected@), blocks_view(revealed@), expected@.len()),
{
    let mut count: usize = 0;
    let mut p: usize = 0;
    while p < expected.len()
        invariant
            p <= expected@.len(),
            count <= p,
            count == agreeing(blocks_view(expected@), blocks_view(revealed@), p as nat),
        decreases expected@.len() - p,
    {
        if p < revealed.len() && blocks_equal(&expected[p], &revealed[p]) {
            count += 1;
        }
        p += 1;
    }
    count
}

} // verus!
