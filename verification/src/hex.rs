//! Lowercase hexadecimal text for blocks and keys.

use crate::hash::Block;
use crate::scheme::{pairs_view, PairSeq};
use vstd::prelude::*;

verus! {

/// The sixteen lowercase hexadecimal digits, in order of value.
pub open spec fn hex_digits() -> Seq<char> {
    seq!['0', '1', '2', '3', '4', '5', '6', '7', '8', '9', 'a', 'b', 'c', 'd', 'e', 'f']
}

/// The text of `bytes`: two digits per byte, the high half first.
pub open spec fn hex(bytes: Seq<u8>) -> Seq<char> {
    Seq::new(
        2 * bytes.len(),
        |i: int|
            if i % 2 == 0 {
                hex_digits()[bytes[i / 2] as int / 16]
            } else {
                hex_digits()[bytes[i / 2] as int % 16]
            },
    )
}

/// The first members of `pairs`, in order.
pub open spec fn firsts(pairs: PairSeq) -> Seq<Seq<u8>> {
    Seq::new(pairs.len(), |i: int| pairs[i].0)
}

/// The second members of `pairs`, in order.
pub open spec fn seconds(pairs: PairSeq) -> Seq<Seq<u8>> {
    Seq::new(pairs.len(), |i: int| pairs[i].1)
}

/// The two-line dump of a key: the text of all first members run together,
/// a line break, and the text of all second members run together.
pub open spec fn dump(pairs: PairSeq) -> Seq<char> {
    hex(firsts(pairs).flatten()) + seq!['\n'] + hex(seconds(pairs).flatten())
}

/// `String::push` appends one character to the end of the string.
pub assume_specification[ String::push ](text: &mut String, ch: char)
    ensures
        final(text)@ == old(text)@.push(ch),
;

/// The text of a byte string followed by one more byte is the text of the
/// string followed by the byte's two digits.
proof fn lemma_hex_push(bytes: Seq<u8>, byte: u8)
    ensures
        hex(bytes.push(byte)) == hex(bytes).push(hex_digits()[byte as int / 16]).push(
            hex_digits()[byte as int % 16],
        ),
{
    assert(hex(bytes.push(byte)) =~= hex(bytes).push(hex_digits()[byte as int / 16]).push(
        hex_digits()[byte as int % 16],
    ));
}

/// The text of two byte strings run together is their two texts run
/// together.
proof fn lemma_hex_concat(front: Seq<u8>, back: Seq<u8>)
    ensures
        hex(front + back) == hex(front) + hex(back),
{
    assert(hex(front + back) =~= hex(front) + hex(back));
}

/// The digit that stands for `nibble`.
fn hex_char(nibble: u8) -> (digit: char)
    requires
        nibble < 16,
    ensures
        digit == hex_digits()[nibble as int],
{
    if nibble < 10 {
        (48 + nibble) as char
    } else {
        (87 + nibble) as char
    }
}

/// Appends the text of `block` to `text`.
fn push_hex(text: &mut String, block: &Block)
    ensures
        final(text)@ == old(text)@ + hex(block@),
{
    let mut j: usize = 0;
    while j < 32
        invariant
            j <= 32,
            text@ == old(text)@ + hex(block@.take(j as int)),
        decreases 32 - j,
    {
        let byte: u8 = block[j];
        proof {
            lemma_hex_push(block@.take(j as int), byte);
            assert(block@.take(j + 1) =~= block@.take(j as int).push(byte));
        }
        text.push(hex_char(byte / 16));
        text.push(hex_char(byte % 16));
        j += 1;
    }
    assert(block@.take(32) =~= block@);
}

/// Writes the two-line dump of `pairs`.
pub(crate) fn dump_pairs(pairs: &Vec<(Block, Block)>) -> (text: String)
    ensures
        text@ == dump(pairs_view(pairs@)),
{
    let ghost model = pairs_view(pairs@);
    let mut text: String = String::new();
    let mut k: usize = 0;
    while k < pairs.len()
        invariant
            k <= pairs@.len(),
            model == pairs_view(pairs@),
            text@ == hex(firsts(model).take(k as int).flatten()),
        decreases pairs@.len() - k,
    {
        proof {
            let done = firsts(model).take(k as int);
            assert(firsts(model).take(k + 1) =~= done.push(pairs@[k as int].0@));
            done.lemma_flatten_push(pairs@[k as int].0@);
            lemma_hex_concat(done.flatten(), pairs@[k as int].0@);
        }
        push_hex(&mut text, &pairs[k].0);
        k += 1;
    }
    assert(firsts(model).take(pairs@.len() as int) =~= firsts(model));
    text.push('\n');
    let ghost head = text@;
    assert(head =~= hex(firsts(model).flatten()) + seq!['\n']);
    let mut k: usize = 0;
    while k < pairs.len()
        invariant
            k <= pairs@.len(),
            model == pairs_view(pairs@),
            text@ == head + hex(seconds(model).take(k as int).flatten()),
        decreases pairs@.len() - k,
    {
        proof {
            let done = seconds(model).take(k as int);
            assert(seconds(model).take(k + 1) =~= done.push(pairs@[k as int].1@));
            done.lemma_flatten_push(pairs@[k as int].1@);
            lemma_hex_concat(done.flatten(), pairs@[k as int].1@);
        }
        push_hex(&mut text, &pairs[k].1);
        k += 1;
    }
    assert(seconds(model).take(pairs@.len() as int) =~= seconds(model));
    text
}

} // verus!
