//! Reading little- and big-endian unsigned integers out of raw image bytes.

use vstd::prelude::*;

verus! {

/// The value of the `n` bytes at `off`, read with the given byte order.
pub open spec fn spec_uint(s: Seq<u8>, off: int, n: int, le: bool) -> nat
    decreases n,
{
    if n <= 0 {
        0
    } else if le {
        (s[off] as nat) + 256 * spec_uint(s, off + 1, n - 1, le)
    } else {
        spec_uint(s, off, n - 1, le) * 256 + (s[off + n - 1] as nat)
    }
}

pub proof fn lemma_uint_split4(s: Seq<u8>, off: int, le: bool)
    ensures
        le ==> spec_uint(s, off, 4, le) == spec_uint(s, off, 2, le) + 0x10000 * spec_uint(
            s,
            off + 2,
            2,
            le,
        ),
        !le ==> spec_uint(s, off, 4, le) == spec_uint(s, off, 2, le) * 0x10000 + spec_uint(
            s,
            off + 2,
            2,
            le,
        ),
{
    reveal_with_fuel(spec_uint, 5);
}

pub proof fn lemma_uint_split8(s: Seq<u8>, off: int, le: bool)
    ensures
        le ==> spec_uint(s, off, 8, le) == spec_uint(s, off, 4, le) + 0x100000000 * spec_uint(
            s,
            off + 4,
            4,
            le,
        ),
        !le ==> spec_uint(s, off, 8, le) == spec_uint(s, off, 4, le) * 0x100000000 + spec_uint(
            s,
            off + 4,
            4,
            le,
        ),
{
    reveal_with_fuel(spec_uint, 9);
}

pub fn read_u16(d: &Vec<u8>, off: usize, le: bool) -> (r: u16)
    requires
        off + 2 <= d@.len(),
    ensures
        r == spec_uint(d@, off as int, 2, le),
{
    let len = d.len();
    let b0 = d[off];
    let b1 = d[off + 1];
    proof {
        reveal_with_fuel(spec_uint, 3);
    }
    if le {
        b0 as u16 + 256 * (b1 as u16)
    } else {
        b1 as u16 + 256 * (b0 as u16)
    }
}

pub fn read_u32(d: &Vec<u8>, off: usize, le: bool) -> (r: u32)
    requires
        off + 4 <= d@.len(),
    ensures
        r == spec_uint(d@, off as int, 4, le),
{
    let len = d.len();
    let a = read_u16(d, off, le);
    let b = read_u16(d, off + 2, le);
    proof {
        lemma_uint_split4(d@, off as int, le);
    }
    if le {
        a as u32 + 0x10000 * (b as u32)
    } else {
        b as u32 + 0x10000 * (a as u32)
    }
}

pub fn read_u64(d: &Vec<u8>, off: usize, le: bool) -> (r: u64)
    requires
        off + 8 <= d@.len(),
    ensures
        r == spec_uint(d@, off as int, 8, le),
{
    let len = d.len();
    let a = read_u32(d, off, le);
    let b = read_u32(d, off + 4, le);
    proof {
        lemma_uint_split8(d@, off as int, le);
    }
    if le {
        a as u64 + 0x100000000 * (b as u64)
    } else {
        b as u64 + 0x100000000 * (a as u64)
    }
}

} // verus!
