//! Locating the exact byte pattern of a string constant — the string's UTF-8
//! bytes followed by their terminating zero byte — inside a data region.

use vstd::prelude::*;
use vstd::string::StrSliceExecFns;
use vstd::utf8::encode_utf8;

verus! {

/// The needle does occur in `haystack` at offset `i`.
pub open spec fn matches_at(haystack: Seq<u8>, needle: Seq<u8>, i: int) -> bool {
    &&& 0 <= i
    &&& i + needle.len() <= haystack.len()
    &&& haystack.subrange(i, i + needle.len()) == needle
}

/// The least offset at or after `from` where the needle occurs, if any.
pub open spec fn spec_find(haystack: Seq<u8>, needle: Seq<u8>, from: int) -> Option<int>
    decreases haystack.len() - from,
{
    if needle.len() == 0 || from < 0 || from + needle.len() > haystack.len() {
        None
    } else if haystack.subrange(from, from + needle.len()) == needle {
        Some(from)
    } else {
        spec_find(haystack, needle, from + 1)
    }
}

/// `spec_find` returns exactly the first occurrence at or after `from`.
pub proof fn lemma_find_is_first(haystack: Seq<u8>, needle: Seq<u8>, from: int)
    requires
        0 <= from,
        needle.len() > 0,
    ensures
        match spec_find(haystack, needle, from) {
            Some(i) => from <= i && matches_at(haystack, needle, i) && forall|j: int|
                from <= j < i ==> !(#[trigger] matches_at(haystack, needle, j)),
            None => forall|j: int| from <= j ==> !(#[trigger] matches_at(haystack, needle, j)),
        },
    decreases haystack.len() - from,
{
    if from + needle.len() > haystack.len() {
    } else if haystack.subrange(from, from + needle.len()) == needle {
    } else {
        lemma_find_is_first(haystack, needle, from + 1);
    }
}

/// The searched-for pattern: the string's UTF-8 bytes plus the terminator, so
/// that a match cannot land in the middle of a longer string constant.
pub open spec fn spec_pattern(target: Seq<char>) -> Seq<u8> {
    encode_utf8(target).push(0)
}

/// Relies on `memchr::memmem::find`: the index of the first occurrence of
/// `needle` inside `haystack`, or `None` when there is none.
#[verifier::external_body]
fn memmem_find(haystack: &Vec<u8>, needle: &Vec<u8>) -> (r: Option<usize>)
    requires
        needle@.len() > 0,
    ensures
        match r {
            Some(i) => matches_at(haystack@, needle@, i as int) && forall|j: int|
                0 <= j < i ==> !(#[trigger] matches_at(haystack@, needle@, j)),
            None => forall|j: int| 0 <= j ==> !(#[trigger] matches_at(haystack@, needle@, j)),
        },
{
    memchr::memmem::find(haystack.as_slice(), needle.as_slice())
}

/// Scans `data` for the first occurrence of `target`'s bytes followed by a
/// zero byte and returns its absolute address relative to `base_va`.
pub fn get_string_addr(data: &Vec<u8>, target: &str, base_va: u64) -> (r: Option<u64>)
    requires
        base_va + data@.len() <= u64::MAX,
    ensures
        match spec_find(data@, spec_pattern(target@), 0) {
            Some(i) => r == Some((base_va + i) as u64),
            None => r is None,
        },
{
    let mut pattern: Vec<u8> = target.as_bytes_vec();
    pattern.push(0);
    proof {
        lemma_find_is_first(data@, pattern@, 0);
    }
    match memmem_find(data, &pattern) {
        Some(pos) => {
            proof {
                match spec_find(data@, pattern@, 0) {
                    Some(i) => {
                        if i < pos {
                            assert(!matches_at(data@, pattern@, i));
                        }
                        if pos < i {
                            assert(!matches_at(data@, pattern@, pos as int));
                        }
                    },
                    None => {
                        assert(!matches_at(data@, pattern@, pos as int));
                    },
                }
            }
            Some(base_va + pos as u64)
        },
        None => {
            proof {
                if let Some(i) = spec_find(data@, pattern@, 0) {
                    assert(!matches_at(data@, pattern@, i));
                }
            }
            None
        },
    }
}

} // verus!
