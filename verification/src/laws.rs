//! What holds of signing, derivation and verification taken together.
//!
//! Each statement is over the models that the contracts of the key and
//! signature methods speak of, so it carries over to every run of them.

use crate::bits::bits_of;
use crate::hash::sha256;
use crate::private_key::LamportPrivateKey;
use crate::public_key::LamportPublicKey;
use crate::scheme::{
    agreeing, commitments, hashes, is_key, is_signature, lemma_agreeing_all, pick, selection,
    slot_of, valid_signature, KEY_PAIRS,
};
use crate::signature::LamportSignature;
use vstd::prelude::*;

verus! {

/// Whatever the message, the signature that a private key gives it is valid
/// under the public key derived from that private key.
pub proof fn lemma_signature_verifies(private: LamportPrivateKey, message: Seq<u8>)
    requires
        is_key(private@),
    ensures
        valid_signature(
            commitments(private@),
            sha256(message),
            selection(private@, sha256(message)),
        ),
{
    let digest = sha256(message);
    assert(hashes(selection(private@, digest)) =~= selection(commitments(private@), digest));
}

/// A signature is a well-formed one: 256 entries of 32 bytes each.
pub proof fn lemma_signature_shape(private: LamportPrivateKey, digest: Seq<u8>)
    requires
        is_key(private@),
    ensures
        is_signature(selection(private@, digest)),
{
}

/// Verification is all or nothing: a signature is valid exactly when it has
/// 256 entries and every one of the 256 positions is among those whose
/// hashed entry equals the expected commitment.
pub proof fn lemma_valid_means_full_count(
    public: LamportPublicKey,
    digest: Seq<u8>,
    signature: Seq<Seq<u8>>,
)
    ensures
        valid_signature(public@, digest, signature) <==> signature.len() == KEY_PAIRS && agreeing(
            selection(public@, digest),
            hashes(signature),
            KEY_PAIRS as nat,
        ) == KEY_PAIRS,
{
    let expected = selection(public@, digest);
    let revealed = hashes(signature);
    lemma_agreeing_all(expected, revealed, KEY_PAIRS as nat);
    if signature.len() == KEY_PAIRS && agreeing(expected, revealed, KEY_PAIRS as nat)
        == KEY_PAIRS {
        assert(revealed =~= expected);
    }
}

/// The public key depends on the secrets alone: two private keys that hold
/// the same secrets have the same public key, and so has one private key
/// whenever it is derived from.
pub proof fn lemma_derivation_deterministic(first: LamportPrivateKey, second: LamportPrivateKey)
    requires
        first@ == second@,
    ensures
        commitments(first@) == commitments(second@),
{
}

/// A signature made for one message is accepted for another exactly when,
/// at every position where the two digests differ in their bit, the two
/// secrets of the pair consulted there have the same SHA-256 digest.
///
/// So a changed message is refused as soon as its digest differs in one bit
/// whose pair holds two distinct commitments.
pub proof fn lemma_other_message(private: LamportPrivateKey, signed: Seq<u8>, presented: Seq<u8>)
    requires
        is_key(private@),
    ensures
        valid_signature(
            commitments(private@),
            sha256(presented),
            selection(private@, sha256(signed)),
        ) <==> (forall|p: int|
            0 <= p < KEY_PAIRS && bits_of(sha256(signed))[p] != bits_of(sha256(presented))[p]
                ==> sha256(private@[#[trigger] slot_of(p)].0) == sha256(private@[slot_of(p)].1)),
{
    let secrets = private@;
    let made = hashes(selection(secrets, sha256(signed)));
    let wanted = selection(commitments(secrets), sha256(presented));
    let colliding = forall|p: int|
        0 <= p < KEY_PAIRS && bits_of(sha256(signed))[p] != bits_of(sha256(presented))[p]
            ==> sha256(secrets[#[trigger] slot_of(p)].0) == sha256(secrets[slot_of(p)].1);
    if colliding {
        assert forall|p: int| 0 <= p < KEY_PAIRS implies made[p] == wanted[p] by {
            let s = slot_of(p);
            assert(commitments(secrets)[s] == (sha256(secrets[s].0), sha256(secrets[s].1)));
        }
        assert(made =~= wanted);
    }
    if made == wanted {
        assert forall|p: int|
            0 <= p < KEY_PAIRS && bits_of(sha256(signed))[p] != bits_of(sha256(presented))[p]
            implies sha256(secrets[#[trigger] slot_of(p)].0) == sha256(secrets[slot_of(p)].1) by {
            let s = slot_of(p);
            assert(commitments(secrets)[s] == (sha256(secrets[s].0), sha256(secrets[s].1)));
            assert(made[p] == wanted[p]);
        }
    }
}

/// A changed message is refused as soon as its digest differs from the
/// signed one in a single bit whose pair holds two distinct commitments.
pub proof fn lemma_changed_message_refused(
    private: LamportPrivateKey,
    signed: Seq<u8>,
    presented: Seq<u8>,
    position: int,
)
    requires
        is_key(private@),
        0 <= position < KEY_PAIRS,
        bits_of(sha256(signed))[position] != bits_of(sha256(presented))[position],
        sha256(private@[slot_of(position)].0) != sha256(private@[slot_of(position)].1),
    ensures
        !valid_signature(
            commitments(private@),
            sha256(presented),
            selection(private@, sha256(signed)),
        ),
{
    lemma_other_message(private, signed, presented);
}

/// Replacing one entry of a valid signature leaves the signature valid
/// exactly when the new entry has the same SHA-256 digest as the entry it
/// replaces.
pub proof fn lemma_replaced_entry(
    public: LamportPublicKey,
    digest: Seq<u8>,
    signature: LamportSignature,
    index: int,
    replacement: Seq<u8>,
)
    requires
        is_signature(signature@),
        valid_signature(public@, digest, signature@),
        0 <= index < KEY_PAIRS,
    ensures
        valid_signature(public@, digest, signature@.update(index, replacement)) <==> sha256(
            replacement,
        ) == sha256(signature@[index]),
{
    let before = hashes(signature@);
    let after = hashes(signature@.update(index, replacement));
    let wanted = selection(public@, digest);
    assert(after =~= before.update(index, sha256(replacement)));
    assert(before[index] == sha256(signature@[index]));
    if sha256(replacement) == sha256(signature@[index]) {
        assert(after =~= before);
    }
    if after == wanted {
        assert(after[index] == before[index]);
    }
}

/// A signature made with one private key is accepted under the public key
/// of another exactly when, at every position, the secret that was revealed
/// and the other key's secret for the same bit have the same SHA-256 digest.
pub proof fn lemma_other_key(signer: LamportPrivateKey, other: LamportPrivateKey, message: Seq<u8>)
    requires
        is_key(signer@),
        is_key(other@),
    ensures
        valid_signature(
            commitments(other@),
            sha256(message),
            selection(signer@, sha256(message)),
        ) <==> (forall|p: int|
            0 <= p < KEY_PAIRS ==> sha256(
                pick(signer@[#[trigger] slot_of(p)], bits_of(sha256(message))[p]),
            ) == sha256(pick(other@[slot_of(p)], bits_of(sha256(message))[p]))),
{
    let digest = sha256(message);
    let made = hashes(selection(signer@, digest));
    let wanted = selection(commitments(other@), digest);
    let same = forall|p: int|
        0 <= p < KEY_PAIRS ==> sha256(pick(signer@[#[trigger] slot_of(p)], bits_of(digest)[p]))
            == sha256(pick(other@[slot_of(p)], bits_of(digest)[p]));
    assert forall|p: int| 0 <= p < KEY_PAIRS implies wanted[p] == sha256(
        pick(other@[slot_of(p)], bits_of(digest)[p]),
    ) by {
        let s = slot_of(p);
        assert(commitments(other@)[s] == (sha256(other@[s].0), sha256(other@[s].1)));
    }
    if same {
        assert forall|p: int| 0 <= p < KEY_PAIRS implies made[p] == wanted[p] by {
            let s = slot_of(p);
        }
        assert(made =~= wanted);
    }
    if made == wanted {
        assert forall|p: int| 0 <= p < KEY_PAIRS implies sha256(
            pick(signer@[#[trigger] slot_of(p)], bits_of(digest)[p]),
        ) == sha256(pick(other@[slot_of(p)], bits_of(digest)[p])) by {
            assert(made[p] == wanted[p]);
        }
    }
}

/// A signature is refused under another key as soon as one revealed secret
/// hashes to neither commitment of the pair that the other key consults at
/// that position.
pub proof fn lemma_unrelated_key_refused(
    signer: LamportPrivateKey,
    other: LamportPrivateKey,
    message: Seq<u8>,
    position: int,
)
    requires
        is_key(signer@),
        is_key(other@),
        0 <= position < KEY_PAIRS,
        sha256(selection(signer@, sha256(message))[position]) != sha256(
            other@[slot_of(position)].0,
        ),
        sha256(selection(signer@, sha256(message))[position]) != sha256(
            other@[slot_of(position)].1,
        ),
    ensures
        !valid_signature(
            commitments(other@),
            sha256(message),
            selection(signer@, sha256(message)),
        ),
{
    lemma_other_key(signer, other, message);
}

} // verus!
