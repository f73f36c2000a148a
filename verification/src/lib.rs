//! A cross-architecture binary signature locator: given the named sections of
//! a loaded module, find the address of a known string constant inside its
//! data-like sections, then statically disassemble the code section to find
//! the function whose machine code references that address — no debug symbols
//! involved.

pub mod bytes;
pub mod resolve_arm;
pub mod resolve_x86;
pub mod searcher;
pub mod sections;
pub mod utils;

use vstd::prelude::*;
use vstd::string::StringExecFns;
use crate::searcher::{spec_find, spec_pattern, get_string_addr};
use crate::resolve_arm::{arm_words, initial_arm_state, spec_arm_scan, find_fn_string_refs_aarch64};
use crate::resolve_x86::{find_fn_string_refs_x86, spec_x86_decoded, spec_x86_scan};
use crate::sections::SectionInfo;

verus! {

/// A section of the scanned module together with a snapshot of its bytes.
/// In the live process the bytes are a view into mapped memory; here they
/// are handed in as plain data so the scan is deterministic and testable.
pub struct SectionImage {
    pub info: SectionInfo,
    pub data: Vec<u8>,
}

/// The snapshot holds exactly the declared number of bytes, and the region's
/// address range fits the address space.
pub open spec fn section_wf(s: SectionImage) -> bool {
    &&& s.data@.len() == s.info.size
    &&& s.info.addr + s.data@.len() <= u64::MAX
}

/// The data-like sections a string constant may live in; they are consulted
/// in enumeration order, not by this list's order.
pub open spec fn is_candidate_name(n: Seq<char>) -> bool {
    n == ".rodata"@ || n == ".rdata"@ || n == ".data"@
}

/// The absolute address of the string: the first occurrence of the pattern
/// in the first candidate section (in enumeration order) that holds one.
pub open spec fn spec_locate_string(ss: Seq<SectionImage>, target: Seq<char>) -> Option<u64>
    decreases ss.len(),
{
    if ss.len() == 0 {
        None
    } else {
        let s = ss[0];
        if is_candidate_name(s.info.name@) && spec_find(s.data@, spec_pattern(target), 0) is Some {
            Some((s.info.addr + spec_find(s.data@, spec_pattern(target), 0).unwrap()) as u64)
        } else {
            spec_locate_string(ss.drop_first(), target)
        }
    }
}

/// Scans the candidate data sections in enumeration order and returns the
/// absolute address of the first exact occurrence of `target`'s bytes plus
/// terminator.
pub fn locate_string(sections: &Vec<SectionImage>, target: &str) -> (r: Option<u64>)
    requires
        forall|i: int| 0 <= i < sections@.len() ==> section_wf(#[trigger] sections@[i]),
    ensures
        r == spec_locate_string(sections@, target@),
{
    let n = sections.len();
    let rodata = String::from_str(".rodata");
    let rdata = String::from_str(".rdata");
    let data = String::from_str(".data");
    let mut idx: usize = 0;
    proof {
        assert(sections@.skip(0) =~= sections@);
    }
    while idx < n
        invariant
            0 <= idx <= n,
            n == sections@.len(),
            forall|i: int| 0 <= i < sections@.len() ==> section_wf(#[trigger] sections@[i]),
            rodata@ == ".rodata"@,
            rdata@ == ".rdata"@,
            data@ == ".data"@,
            spec_locate_string(sections@.skip(idx as int), target@) == spec_locate_string(
                sections@,
                target@,
            ),
        decreases n - idx,
    {
        let s = &sections[idx];
        proof {
            assert(sections@.skip(idx as int)[0] == sections@[idx as int]);
            assert(sections@.skip(idx as int).drop_first() =~= sections@.skip(idx as int + 1));
        }
        let candidate = s.info.name == rodata || s.info.name == rdata || s.info.name == data;
        assert(candidate == is_candidate_name(s.info.name@));
        if candidate {
            if let Some(addr) = get_string_addr(&s.data, target, s.info.addr as u64) {
                return Some(addr);
            }
        }
        idx = idx + 1;
    }
    None
}

/// The code section is identified by its fixed, separate name.
pub open spec fn is_text_name(n: Seq<char>) -> bool {
    n == ".text"@
}

/// The index of the first section named `.text`, if any.
pub open spec fn spec_find_text(ss: Seq<SectionImage>) -> Option<int>
    decreases ss.len(),
{
    if ss.len() == 0 {
        None
    } else if is_text_name(ss[0].info.name@) {
        Some(0)
    } else {
        match spec_find_text(ss.drop_first()) {
            Some(k) => Some(k + 1),
            None => None,
        }
    }
}

pub proof fn lemma_find_text(ss: Seq<SectionImage>)
    ensures
        match spec_find_text(ss) {
            Some(i) => 0 <= i < ss.len() && is_text_name(ss[i].info.name@) && forall|k: int|
                0 <= k < i ==> !is_text_name(#[trigger] ss[k].info.name@),
            None => forall|k: int|
                0 <= k < ss.len() ==> !is_text_name(#[trigger] ss[k].info.name@),
        },
    decreases ss.len(),
{
    if ss.len() > 0 && !is_text_name(ss[0].info.name@) {
        let tail = ss.drop_first();
        lemma_find_text(tail);
        assert(forall|k: int| 1 <= k < ss.len() ==> #[trigger] ss[k] == tail[k - 1]);
    }
}

fn find_text_section(sections: &Vec<SectionImage>) -> (r: Option<usize>)
    ensures
        match r {
            Some(i) => spec_find_text(sections@) == Some(i as int),
            None => spec_find_text(sections@) is None,
        },
{
    let text = String::from_str(".text");
    let n = sections.len();
    let mut idx: usize = 0;
    while idx < n
        invariant
            0 <= idx <= n,
            n == sections@.len(),
            text@ == ".text"@,
            forall|k: int| 0 <= k < idx ==> !is_text_name(#[trigger] sections@[k].info.name@),
        decreases n - idx,
    {
        let s = &sections[idx];
        if s.info.name == text {
            proof {
                lemma_find_text(sections@);
                if let Some(i) = spec_find_text(sections@) {
                    if i < idx as int {
                        assert(!is_text_name(sections@[i].info.name@));
                    }
                    if (idx as int) < i {
                        assert(!is_text_name(sections@[idx as int].info.name@));
                    }
                } else {
                    assert(!is_text_name(sections@[idx as int].info.name@));
                }
            }
            return Some(idx);
        }
        idx = idx + 1;
    }
    proof {
        lemma_find_text(sections@);
        if let Some(i) = spec_find_text(sections@) {
            assert(!is_text_name(sections@[i].info.name@));
        }
    }
    None
}

/// The instruction set the code section is resolved under.
#[derive(Clone, Copy, PartialEq, Eq, Structural)]
pub enum TargetArch {
    X86,
    X64,
    Aarch64,
}

/// The whole pipeline under the AArch64 resolver, as a function of the
/// sections and the target string alone.
pub open spec fn spec_init_aarch64(ss: Seq<SectionImage>, target: Seq<char>) -> Option<u64> {
    match spec_locate_string(ss, target) {
        None => None,
        Some(str_addr) => match spec_find_text(ss) {
            None => None,
            Some(ti) => spec_arm_scan(
                arm_words(ss[ti].data@),
                ss[ti].info.addr as u64,
                0,
                initial_arm_state(),
                str_addr,
            ),
        },
    }
}

/// The whole pipeline under the x86 resolver at the given bitness, over the
/// decoded stream the outside decoder produces for the `.text` bytes.
pub open spec fn spec_init_x86(ss: Seq<SectionImage>, target: Seq<char>, bitness: u32) -> Option<
    u64,
> {
    match spec_locate_string(ss, target) {
        None => None,
        Some(str_addr) => match spec_find_text(ss) {
            None => None,
            Some(ti) => spec_x86_scan(
                spec_x86_decoded(ss[ti].data@, ss[ti].info.addr as u64, bitness),
                0,
                0,
                str_addr,
            ),
        },
    }
}

/// What the pipeline resolves, for each instruction set: the string's
/// address out of the candidate sections, then the referencing function out
/// of the `.text` section, `None` as soon as a stage misses.
pub open spec fn spec_init(ss: Seq<SectionImage>, target: Seq<char>, arch: TargetArch) -> Option<
    u64,
> {
    match arch {
        TargetArch::Aarch64 => spec_init_aarch64(ss, target),
        TargetArch::X64 => spec_init_x86(ss, target, 64),
        TargetArch::X86 => spec_init_x86(ss, target, 32),
    }
}

/// The locate-string-then-resolve-function pipeline, run once over a
/// snapshot of the module's sections: find the string constant in the
/// candidate data sections, then resolve the function referencing it in the
/// `.text` section. The result is pinned for every instruction set — the
/// AArch64 arm down to the raw bytes, the x86 arms over the named decoded
/// stream `spec_x86_decoded`.
pub fn init(sections: &Vec<SectionImage>, target: &str, arch: TargetArch) -> (r: Option<u64>)
    requires
        forall|i: int| 0 <= i < sections@.len() ==> section_wf(#[trigger] sections@[i]),
    ensures
        r == spec_init(sections@, target@, arch),
        spec_locate_string(sections@, target@) is None ==> r is None,
        spec_find_text(sections@) is None ==> r is None,
{
    let str_addr = match locate_string(sections, target) {
        Some(a) => a,
        None => {
            return None;
        },
    };
    let ti = match find_text_section(sections) {
        Some(i) => i,
        None => {
            return None;
        },
    };
    proof {
        lemma_find_text(sections@);
    }
    let s = &sections[ti];
    let res = match arch {
        TargetArch::Aarch64 => find_fn_string_refs_aarch64(&s.data, s.info.addr as u64, str_addr),
        TargetArch::X64 => find_fn_string_refs_x86(&s.data, s.info.addr as u64, str_addr, 64),
        TargetArch::X86 => find_fn_string_refs_x86(&s.data, s.info.addr as u64, str_addr, 32),
    };
    match res {
        Ok(a) => Some(a),
        Err(_) => None,
    }
}

/// Scanning an unchanged memory image twice yields the identical resolved
/// address: for every instruction set, the pipeline's result is a function
/// of the sections, the target and the instruction set alone.
pub proof fn lemma_init_deterministic(
    ss: Seq<SectionImage>,
    target: Seq<char>,
    arch: TargetArch,
    r1: Option<u64>,
    r2: Option<u64>,
)
    requires
        r1 == spec_init(ss, target, arch),
        r2 == spec_init(ss, target, arch),
    ensures
        r1 == r2,
{
}

} // verus!
