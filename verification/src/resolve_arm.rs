//! Function resolution for AArch64 code: fixed-width words are decoded by
//! masking against known templates, function bounds are tracked through
//! prologue and `RET` markers, and `ADRP`+`ADD` pairs are folded into the
//! absolute address they compute.

use vstd::prelude::*;
use crate::bytes::{spec_uint, read_u32};

verus! {

/// Scanner state between two instruction words: the start of the function
/// being walked (if a prologue was seen), whether that function has already
/// referenced the target, and the register/page pair of an immediately
/// preceding `ADRP`.
#[derive(Clone, Copy)]
pub struct ArmScanState {
    pub current_fn: Option<u64>,
    pub found_target: bool,
    pub last_adrp: Option<(u32, u64)>,
}

pub open spec fn initial_arm_state() -> ArmScanState {
    ArmScanState { current_fn: None, found_target: false, last_adrp: None }
}

pub open spec fn arm_is_ret(w: u32) -> bool {
    w == 0xD65F03C0
}

pub open spec fn arm_is_adrp(w: u32) -> bool {
    (w & 0x9F000000) == 0x90000000
}

/// The 21-bit page immediate of an `ADRP`, `immhi:immlo`.
pub open spec fn arm_adrp_imm(w: u32) -> u32 {
    (((w >> 5) & 0x7FFFF) << 2) | ((w >> 29) & 3)
}

/// The immediate, sign-extended and shifted onto page granularity.
pub open spec fn arm_adrp_offset(w: u32) -> u64 {
    if (arm_adrp_imm(w) & 0x100000) != 0 {
        ((arm_adrp_imm(w) as u64) << 12) | 0xFFFF_FFFE_0000_0000
    } else {
        (arm_adrp_imm(w) as u64) << 12
    }
}

/// The page address an `ADRP` at `ip` computes into its destination register.
pub open spec fn arm_adrp_page(w: u32, ip: u64) -> u64 {
    (ip & 0xFFFF_FFFF_FFFF_F000).wrapping_add(arm_adrp_offset(w))
}

/// A 64-bit `ADD (immediate)`, with either value of the shift bit.
pub open spec fn arm_is_add_imm(w: u32) -> bool {
    (w & 0xFF800000) == 0x91000000
}

/// The immediate of an `ADD (immediate)`, shifted left by 12 when the shift
/// bit is set.
pub open spec fn arm_add_value(w: u32) -> u64 {
    if ((w >> 22) & 1) == 1 {
        (((w >> 10) & 0xFFF) as u64) << 12
    } else {
        ((w >> 10) & 0xFFF) as u64
    }
}

/// A recognized prologue marker: a pre-indexed `STP x29, x30, [sp, ...]!` or
/// a `SUB sp, sp, #imm`.
pub open spec fn arm_is_prologue(w: u32) -> bool {
    (w & 0xFFC07FFF) == 0xA9807BFD || (w & 0xFFC003FF) == 0xD10003FF
}

/// One step of the scanner over the word `w` at address `ip`. `RET` resets
/// everything; `ADRP` records its register/page pair; an `ADD (immediate)`
/// whose destination and source both equal the remembered register marks the
/// candidate as matched when the sum hits `target`; a prologue opens a new
/// candidate when none is active; anything else only discards the pair.
pub open spec fn arm_step(s: ArmScanState, w: u32, ip: u64, target: u64) -> ArmScanState {
    if arm_is_ret(w) {
        initial_arm_state()
    } else if arm_is_adrp(w) {
        ArmScanState { last_adrp: Some((w & 0x1F, arm_adrp_page(w, ip))), ..s }
    } else if arm_is_add_imm(w) {
        let hit = match s.last_adrp {
            Some((rd, page)) => (w & 0x1F) == rd && ((w >> 5) & 0x1F) == rd
                && page.wrapping_add(arm_add_value(w)) == target,
            None => false,
        };
        ArmScanState { found_target: s.found_target || hit, last_adrp: None, ..s }
    } else if arm_is_prologue(w) {
        if s.current_fn is None {
            ArmScanState { current_fn: Some(ip), found_target: false, last_adrp: None }
        } else {
            ArmScanState { last_adrp: None, ..s }
        }
    } else {
        ArmScanState { last_adrp: None, ..s }
    }
}

/// The little-endian 32-bit words of the code region, one per full 4-byte
/// chunk.
pub open spec fn arm_words(code: Seq<u8>) -> Seq<u32> {
    Seq::new((code.len() / 4) as nat, |k: int| spec_uint(code, 4 * k, 4, true) as u32)
}

/// The scan result from word `k` on, in state `s`: the start address of the
/// first candidate function that referenced `target` and then reached its
/// `RET`, or `None` when the region ends first.
pub open spec fn spec_arm_scan(
    words: Seq<u32>,
    base_ip: u64,
    k: int,
    s: ArmScanState,
    target: u64,
) -> Option<u64>
    decreases words.len() - k,
{
    if k < 0 || k >= words.len() {
        None
    } else {
        let w = words[k];
        let ip = (base_ip + 4 * k) as u64;
        if arm_is_ret(w) && s.found_target && s.current_fn is Some {
            Some(s.current_fn.unwrap())
        } else {
            spec_arm_scan(words, base_ip, k + 1, arm_step(s, w, ip, target), target)
        }
    }
}

/// Statically scans an AArch64 code region for the function that computes
/// `target` through an `ADRP`/`ADD` pair, returning that function's start
/// address.
pub fn find_fn_string_refs_aarch64(code: &Vec<u8>, base_ip: u64, target: u64) -> (r: Result<
    u64,
    &'static str,
>)
    requires
        base_ip + code@.len() <= u64::MAX,
    ensures
        match spec_arm_scan(arm_words(code@), base_ip, 0, initial_arm_state(), target) {
            Some(a) => r == Ok::<u64, &'static str>(a),
            None => r is Err,
        },
{
    let ghost words = arm_words(code@);
    let len = code.len();
    let nwords = len / 4;
    let mut k: usize = 0;
    let mut st = ArmScanState { current_fn: None, found_target: false, last_adrp: None };
    assert(nwords == words.len());
    while k < nwords
        invariant
            0 <= k <= nwords,
            nwords == words.len(),
            len == code@.len(),
            base_ip + code@.len() <= u64::MAX,
            words == arm_words(code@),
            spec_arm_scan(words, base_ip, k as int, st, target) == spec_arm_scan(
                words,
                base_ip,
                0,
                initial_arm_state(),
                target,
            ),
        decreases nwords - k,
    {
        let off = 4 * k;
        assert(4 * k + 4 <= len) by {
            assert(k + 1 <= nwords);
            assert(4 * (k + 1) <= 4 * nwords);
            assert(4 * nwords <= len);
        };
        let w = read_u32(code, off, true);
        assert(w == words[k as int]);
        let ip = base_ip + (off as u64);
        assert(ip == (base_ip + 4 * (k as int)) as u64);
        let ghost prev = st;
        if w == 0xD65F03C0 {
            if st.found_target {
                if let Some(f) = st.current_fn {
                    assert(spec_arm_scan(words, base_ip, k as int, st, target) == Some(f));
                    return Ok(f);
                }
            }
            st = ArmScanState { current_fn: None, found_target: false, last_adrp: None };
        } else if (w & 0x9F000000) == 0x90000000 {
            let imm: u32 = (((w >> 5) & 0x7FFFF) << 2) | ((w >> 29) & 3);
            let page_off: u64 = if (imm & 0x100000) != 0 {
                ((imm as u64) << 12) | 0xFFFF_FFFE_0000_0000
            } else {
                (imm as u64) << 12
            };
            let page = (ip & 0xFFFF_FFFF_FFFF_F000).wrapping_add(page_off);
            st = ArmScanState { last_adrp: Some((w & 0x1F, page)), ..st };
        } else if (w & 0xFF800000) == 0x91000000 {
            let hit = match st.last_adrp {
                Some((rd, page)) => {
                    let value: u64 = if ((w >> 22) & 1) == 1 {
                        (((w >> 10) & 0xFFF) as u64) << 12
                    } else {
                        ((w >> 10) & 0xFFF) as u64
                    };
                    (w & 0x1F) == rd && ((w >> 5) & 0x1F) == rd && page.wrapping_add(value)
                        == target
                },
                None => false,
            };
            st = ArmScanState { found_target: st.found_target || hit, last_adrp: None, ..st };
        } else if (w & 0xFFC07FFF) == 0xA9807BFD || (w & 0xFFC003FF) == 0xD10003FF {
            if st.current_fn.is_none() {
                st = ArmScanState { current_fn: Some(ip), found_target: false, last_adrp: None };
            } else {
                st = ArmScanState { last_adrp: None, ..st };
            }
        } else {
            st = ArmScanState { last_adrp: None, ..st };
        }
        proof {
            assert(st == arm_step(prev, w, ip, target));
            assert(!(arm_is_ret(w) && prev.found_target && prev.current_fn is Some));
            assert(spec_arm_scan(words, base_ip, k as int, prev, target) == spec_arm_scan(
                words,
                base_ip,
                k as int + 1,
                st,
                target,
            ));
        }
        k = k + 1;
    }
    assert(spec_arm_scan(words, base_ip, k as int, st, target) is None);
    Err("Failed to find references")
}

} // verus!
