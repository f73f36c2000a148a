//! Function resolution for x86/x86-64 code: a general-purpose decoder walks
//! the region instruction by instruction, and a three-state machine recovers
//! the function whose body carries a memory operand displaced exactly at the
//! target address.

use vstd::prelude::*;

verus! {

/// What the scanner reads off one decoded instruction: its address, whether
/// it is a `push`, its operand count, whether it is a `ret`, and its memory
/// operand's 64-bit displacement.
#[derive(Clone, Copy)]
pub struct X86Insn {
    pub ip: u64,
    pub push: bool,
    pub op_count: u32,
    pub ret: bool,
    pub disp: u64,
}

/// The prologue marker: a `push` with exactly one operand.
pub open spec fn is_push_one_op(i: X86Insn) -> bool {
    i.push && i.op_count == 1
}

/// The scan over a decoded instruction stream, from state `state` with
/// candidate start `current_fn_ip`. State 0: outside any candidate, a
/// single-operand `push` opens one. State 1: inside, a `ret` abandons the
/// candidate, a displacement equal to `target` advances. State 2: the
/// reference was seen, the next `ret` settles the result.
pub open spec fn spec_x86_scan(
    insns: Seq<X86Insn>,
    state: int,
    current_fn_ip: u64,
    target: u64,
) -> Option<u64>
    decreases insns.len(),
{
    if insns.len() == 0 {
        None
    } else {
        let i = insns[0];
        let rest = insns.drop_first();
        if state == 0 {
            if is_push_one_op(i) {
                spec_x86_scan(rest, 1, i.ip, target)
            } else {
                spec_x86_scan(rest, 0, current_fn_ip, target)
            }
        } else if state == 1 {
            if i.ret {
                spec_x86_scan(rest, 0, current_fn_ip, target)
            } else if i.disp == target {
                spec_x86_scan(rest, 2, current_fn_ip, target)
            } else {
                spec_x86_scan(rest, 1, current_fn_ip, target)
            }
        } else {
            if i.ret {
                Some(current_fn_ip)
            } else {
                spec_x86_scan(rest, 2, current_fn_ip, target)
            }
        }
    }
}

/// Walks an already decoded instruction stream and returns the start address
/// of the first function that both opens with a single-operand `push` and
/// references `target` before its `ret`.
pub fn resolve_x86_insns(insns: &Vec<X86Insn>, target: u64) -> (r: Option<u64>)
    ensures
        r == spec_x86_scan(insns@, 0, 0, target),
{
    let n = insns.len();
    let mut idx: usize = 0;
    let mut state: u8 = 0;
    let mut current_fn_ip: u64 = 0;
    proof {
        assert(insns@.skip(0) =~= insns@);
    }
    while idx < n
        invariant
            0 <= idx <= n,
            n == insns@.len(),
            state <= 2,
            spec_x86_scan(insns@.skip(idx as int), state as int, current_fn_ip, target)
                == spec_x86_scan(insns@, 0, 0, target),
        decreases n - idx,
    {
        let i = insns[idx];
        proof {
            assert(insns@.skip(idx as int)[0] == insns@[idx as int]);
            assert(insns@.skip(idx as int).drop_first() =~= insns@.skip(idx as int + 1));
        }
        if state == 0 {
            if i.push && i.op_count == 1 {
                current_fn_ip = i.ip;
                state = 1;
            }
        } else if state == 1 {
            if i.ret {
                state = 0;
            } else if i.disp == target {
                state = 2;
            }
        } else {
            if i.ret {
                return Some(current_fn_ip);
            }
        }
        idx = idx + 1;
    }
    None
}

/// What the outside decoder produces over a region: decoding is a function
/// of the bytes, the base address and the bitness alone, so the stream can
/// be named even though writing it out would take the whole of the x86
/// encoding.
pub uninterp spec fn spec_x86_decoded(code: Seq<u8>, base_ip: u64, bitness: u32) -> Seq<X86Insn>;

/// Relies on `iced_x86::Decoder`: `with_ip` (with
/// `DecoderOptions::NO_INVALID_CHECK`, so malformed bytes still come back as
/// decoded instructions), `can_decode` and `decode`, and on the
/// `Instruction` accessors `ip`, `mnemonic`, `op_count` and
/// `memory_displacement64`, which each instruction's summary is taken from.
/// The stream is deterministic in the arguments, which is all the name
/// `spec_x86_decoded` asserts. `with_ip` refuses a bitness the precondition
/// does not rule in (and, in principle, a buffer ending within a few bytes
/// of the top of the address space, where no real allocation sits).
#[verifier::external_body]
fn decode_region(code: &Vec<u8>, base_ip: u64, bitness: u32) -> (r: Vec<X86Insn>)
    requires
        bitness == 32 || bitness == 64,
    ensures
        r@ == spec_x86_decoded(code@, base_ip, bitness),
        code@.len() == 0 ==> r@.len() == 0,
{
    let mut d = iced_x86::Decoder::with_ip(
        bitness, code.as_slice(), base_ip, iced_x86::DecoderOptions::NO_INVALID_CHECK,
    );
    let mut out = Vec::new();
    while d.can_decode() {
        let i = d.decode();
        let push = matches!(i.mnemonic(), iced_x86::Mnemonic::Push);
        let ret = matches!(i.mnemonic(), iced_x86::Mnemonic::Ret);
        let (ip, op_count, disp) = (i.ip(), i.op_count(), i.memory_displacement64());
        out.push(X86Insn { ip, push, op_count, ret, disp });
    }
    out
}

/// Statically scans an x86/x86-64 code region for the function that
/// references `target` through a memory operand: the region is decoded with
/// the outside decoder and the decoded stream (`spec_x86_decoded`) is walked
/// by the state machine `spec_x86_scan`.
pub fn find_fn_string_refs_x86(code: &Vec<u8>, base_ip: u64, target: u64, bitness: u32) -> (r:
    Result<u64, &'static str>)
    requires
        bitness == 32 || bitness == 64,
    ensures
        match spec_x86_scan(spec_x86_decoded(code@, base_ip, bitness), 0, 0, target) {
            Some(a) => r == Ok::<u64, &'static str>(a),
            None => r is Err,
        },
{
    let insns = decode_region(code, base_ip, bitness);
    match resolve_x86_insns(&insns, target) {
        Some(a) => Ok(a),
        None => Err("Failed to find references"),
    }
}

} // verus!
