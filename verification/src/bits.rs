//! Bits of a byte and of a digest, least-significant bit first.

use vstd::prelude::*;

verus! {

/// Whether bit `index` of `byte` is set, bit 0 being the least significant.
pub open spec fn bit_at(byte: u8, index: u8) -> bool {
    (byte >> index) & 1 == 1
}

/// The bits of `bytes` in byte-major, low-bit-first order: entry `p` is bit
/// `p % 8` of byte `p / 8`.
pub open spec fn bits_of(bytes: Seq<u8>) -> Seq<bool> {
    Seq::new(8 * bytes.len(), |p: int| bit_at(bytes[p / 8], (p % 8) as u8))
}

/// Reads bit `index` of `byte`, counting from the least-significant bit.
///
/// Indices 0 to 7 name a bit; any larger index is refused.
pub fn get_bit(byte: u8, index: u8) -> (r: Result<bool, ()>)
    ensures
        index < 8 ==> r == Ok::<bool, ()>(bit_at(byte, index)),
        index >= 8 ==> r is Err,
{
    if index < 8 {
        let mask: u8 = 1u8 << index;
        assert((byte & (1u8 << index) != 0) == ((byte >> index) & 1 == 1)) by (bit_vector)
            requires
                index < 8,
        ;
        Ok(byte & mask != 0)
    } else {
        Err(())
    }
}

} // verus!
