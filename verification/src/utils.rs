//! Packing a pair of 16-bit limits into one 32-bit word and back.

use vstd::prelude::*;

verus! {

/// The packed word: the first limit in the high 16 bits, the second in the
/// low 16 bits, reinterpreted as a signed 32-bit value.
pub open spec fn spec_combine_hex(max: i16, min: i16) -> i32 {
    (((max as u16 as u32) << 16u32) | (min as u16 as u32)) as i32
}

pub open spec fn spec_split_hex(combined: i32) -> (i16, i16) {
    (((combined as u32) >> 16u32) as u16 as i16, (combined as u32) as u16 as i16)
}

pub fn combine_hex(max: i16, min: i16) -> (r: i32)
    ensures
        r == spec_combine_hex(max, min),
{
    (((max as u16 as u32) << 16u32) | (min as u16 as u32)) as i32
}

pub fn split_hex(combined: i32) -> (r: (i16, i16))
    ensures
        r == spec_split_hex(combined),
{
    (((combined as u32) >> 16u32) as u16 as i16, (combined as u32) as u16 as i16)
}

/// Splitting a packed word recovers exactly the two limits that were combined.
pub proof fn lemma_split_combine(max: i16, min: i16)
    ensures
        spec_split_hex(spec_combine_hex(max, min)) == (max, min),
{
    assert(((((max as u16 as u32) << 16u32) | (min as u16 as u32)) as i32 as u32 >> 16u32)
        as u16 as i16 == max) by (bit_vector);
    assert((((((max as u16 as u32) << 16u32) | (min as u16 as u32)) as i32) as u32) as u16 as i16
        == min) by (bit_vector);
}

/// Re-combining the two halves of a split word reproduces the word.
pub proof fn lemma_combine_split(combined: i32)
    ensures
        spec_combine_hex(spec_split_hex(combined).0, spec_split_hex(combined).1) == combined,
{
    assert(((((combined as u32 >> 16u32) as u16 as i16 as u16 as u32) << 16u32)
        | ((combined as u32) as u16 as i16 as u16 as u32)) as i32 == combined) by (bit_vector);
}

} // verus!
