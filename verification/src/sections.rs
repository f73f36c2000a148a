//! Section discovery: parsing the section tables of an ELF object file or of
//! a mapped PE image into named regions with their runtime addresses.
//!
//! The ELF path mirrors the dynamic-linker discovery design: a section's
//! runtime address is the module's load base plus the section's *file
//! offset*, a deliberate simplification that assumes the on-disk layout of
//! the sections of interest coincides with the in-memory layout.

use vstd::prelude::*;
use vstd::utf8::{valid_utf8, encode_utf8};
use crate::bytes::{spec_uint, read_u16, read_u32, read_u64};

verus! {

/// One named region of a loaded module's image, as mapped into the current
/// process's address space.
pub struct SectionInfo {
    pub name: String,
    pub addr: usize,
    pub size: usize,
}

/// Relies on `String::from_utf8`: decoding succeeds exactly on valid UTF-8,
/// and the decoded string re-encodes to the input bytes.
#[verifier::external_body]
fn bytes_to_string(bytes: Vec<u8>) -> (r: Option<String>)
    ensures
        r is Some <==> valid_utf8(bytes@),
        r matches Some(s) ==> encode_utf8(s@) == bytes@,
{
    String::from_utf8(bytes).ok()
}

/// The index of the first zero byte at or after `from`, or the length when
/// there is none.
pub open spec fn find_zero(s: Seq<u8>, from: int) -> int
    decreases s.len() - from,
{
    if from < 0 || from >= s.len() {
        s.len() as int
    } else if s[from] == 0 {
        from
    } else {
        find_zero(s, from + 1)
    }
}

pub proof fn lemma_find_zero(s: Seq<u8>, from: int, j: int)
    requires
        0 <= from <= j <= s.len(),
        forall|m: int| from <= m < j ==> s[m] != 0,
        j < s.len() ==> s[j] == 0,
    ensures
        find_zero(s, from) == if j < s.len() {
            j
        } else {
            s.len() as int
        },
    decreases j - from,
{
    if from < j {
        lemma_find_zero(s, from + 1, j);
    }
}

/// A well-formed name sits at `start` in the string table: a zero terminator
/// exists and the bytes before it are valid UTF-8.
pub open spec fn name_at_ok(st: Seq<u8>, start: int) -> bool {
    &&& 0 <= start
    &&& find_zero(st, start) < st.len()
    &&& valid_utf8(st.subrange(start, find_zero(st, start)))
}

pub open spec fn name_bytes_at(st: Seq<u8>, start: int) -> Seq<u8> {
    st.subrange(start, find_zero(st, start))
}

/// Reads the zero-terminated name at `start` out of a string table.
fn extract_name(st: &Vec<u8>, start: u32) -> (r: Option<String>)
    ensures
        r is Some <==> name_at_ok(st@, start as int),
        r matches Some(s) ==> encode_utf8(s@) == name_bytes_at(st@, start as int),
{
    let len = st.len();
    let s0 = start as usize;
    if s0 >= len {
        return None;
    }
    let mut j: usize = s0;
    let mut bytes: Vec<u8> = Vec::new();
    proof {
        assert(bytes@ =~= st@.subrange(s0 as int, s0 as int));
    }
    while j < len && st[j] != 0
        invariant
            s0 <= j <= len,
            len == st@.len(),
            forall|m: int| s0 <= m < j ==> st@[m] != 0,
            bytes@ == st@.subrange(s0 as int, j as int),
        decreases len - j,
    {
        bytes.push(st[j]);
        proof {
            assert(bytes@ =~= st@.subrange(s0 as int, j as int + 1));
        }
        j = j + 1;
    }
    proof {
        lemma_find_zero(st@, s0 as int, j as int);
    }
    if j >= len {
        return None;
    }
    bytes_to_string(bytes)
}

/// Copies `n` bytes starting at `start` out of the image.
fn copy_range(img: &Vec<u8>, start: usize, n: usize) -> (r: Vec<u8>)
    requires
        start + n <= img@.len(),
    ensures
        r@ == img@.subrange(start as int, start as int + n as int),
{
    let len = img.len();
    let mut out: Vec<u8> = Vec::new();
    let mut j: usize = 0;
    proof {
        assert(out@ =~= img@.subrange(start as int, start as int));
    }
    while j < n
        invariant
            0 <= j <= n,
            len == img@.len(),
            start + n <= img@.len(),
            out@ == img@.subrange(start as int, start as int + j as int),
        decreases n - j,
    {
        out.push(img[start + j]);
        proof {
            assert(out@ =~= img@.subrange(start as int, start as int + j as int + 1));
        }
        j = j + 1;
    }
    out
}

pub proof fn lemma_u16_mul_bound(a: u16, b: u16)
    by (nonlinear_arith)
    ensures
        0 <= (a as int) * (b as int) <= 0xFFFF * 0xFFFF,
{
}

pub proof fn lemma_mul_mono(i: int, n: int, e: int)
    by (nonlinear_arith)
    requires
        0 <= i < n,
        e >= 0,
    ensures
        (i + 1) * e <= n * e,
        0 <= i * e,
        i * e + e == (i + 1) * e,
{
}

// ---------------------------------------------------------------------------
// Module identity
// ---------------------------------------------------------------------------
/// The largest index below `upto` holding byte `c`, or -1.
pub open spec fn last_index_of(p: Seq<u8>, c: u8, upto: int) -> int
    decreases upto,
{
    if upto <= 0 {
        -1
    } else if p[upto - 1] == c {
        upto - 1
    } else {
        last_index_of(p, c, upto - 1)
    }
}

pub proof fn lemma_last_index_skip(p: Seq<u8>, c: u8, upto: int, j: int)
    requires
        0 <= j <= upto,
        forall|m: int| j <= m < upto ==> p[m] != c,
    ensures
        last_index_of(p, c, upto) == last_index_of(p, c, j),
    decreases upto - j,
{
    if j < upto {
        lemma_last_index_skip(p, c, upto - 1, j);
    }
}

/// The final path component: everything after the last `/`.
pub open spec fn spec_basename(p: Seq<u8>) -> Seq<u8> {
    p.subrange(last_index_of(p, 47, p.len() as int) + 1, p.len() as int)
}

fn bytes_eq(a: &Vec<u8>, b: &Vec<u8>) -> (r: bool)
    ensures
        r == (a@ == b@),
{
    let n = a.len();
    if n != b.len() {
        assert(a@.len() != b@.len());
        return false;
    }
    let mut j: usize = 0;
    while j < n
        invariant
            0 <= j <= n,
            n == a@.len() == b@.len(),
            forall|m: int| 0 <= m < j ==> a@[m] == b@[m],
        decreases n - j,
    {
        if a[j] != b[j] {
            return false;
        }
        j = j + 1;
    }
    proof {
        assert(a@ =~= b@);
    }
    true
}

/// Whether a loaded module's path refers to `target`: the path exactly, or
/// its final path component.
pub open spec fn spec_module_name_matches(path: Seq<u8>, target: Seq<u8>) -> bool {
    path == target || spec_basename(path) == target
}

/// Decides whether a dynamic-linker entry's path names the wanted module,
/// either in full or by basename.
pub fn module_name_matches(path: &Vec<u8>, target: &Vec<u8>) -> (r: bool)
    ensures
        r == spec_module_name_matches(path@, target@),
{
    if bytes_eq(path, target) {
        return true;
    }
    let n = path.len();
    let mut i: usize = n;
    while i > 0 && path[i - 1] != 47
        invariant
            0 <= i <= n,
            n == path@.len(),
            forall|m: int| i <= m < n ==> path@[m] != 47,
        decreases i,
    {
        i = i - 1;
    }
    proof {
        lemma_last_index_skip(path@, 47, n as int, i as int);
        assert(last_index_of(path@, 47, i as int) == if i > 0 {
            i - 1
        } else {
            -1int
        });
    }
    let base = copy_range(path, i, n - i);
    assert(base@ == spec_basename(path@));
    bytes_eq(&base, target)
}

/// A selector with no path separator and no shared-object suffix names the
/// main program rather than a library file.
pub open spec fn spec_plain_program_name(t: Seq<u8>) -> bool {
    &&& !(t.len() >= 3 && t.subrange(t.len() - 3, t.len() as int) == seq![46u8, 115u8, 111u8])
    &&& !(exists|i: int| 0 <= i < t.len() && t[i] == 47)
}

/// Decides whether the module selector is a plain program name: it neither
/// ends in `.so` nor contains a `/`.
pub fn plain_program_name(target: &Vec<u8>) -> (r: bool)
    ensures
        r == spec_plain_program_name(target@),
{
    let n = target.len();
    let ends_so = n >= 3 && target[n - 3] == 46 && target[n - 2] == 115 && target[n - 1] == 111;
    proof {
        if n >= 3 {
            assert(target@.subrange(n - 3, n as int) =~= seq![
                target@[n - 3],
                target@[n - 2],
                target@[n - 1],
            ]);
        }
    }
    if ends_so {
        return false;
    }
    let mut j: usize = 0;
    while j < n
        invariant
            0 <= j <= n,
            n == target@.len(),
            forall|m: int| 0 <= m < j ==> target@[m] != 47,
        decreases n - j,
    {
        if target[j] == 47 {
            return false;
        }
        j = j + 1;
    }
    true
}

// ---------------------------------------------------------------------------
// ELF object files
// ---------------------------------------------------------------------------
pub open spec fn elf_magic_ok(img: Seq<u8>) -> bool {
    &&& img.len() >= 6
    &&& img[0] == 0x7f
    &&& img[1] == 0x45
    &&& img[2] == 0x4c
    &&& img[3] == 0x46
    &&& (img[4] == 1 || img[4] == 2)
    &&& (img[5] == 1 || img[5] == 2)
}

pub open spec fn elf_is64(img: Seq<u8>) -> bool {
    img[4] == 2
}

pub open spec fn elf_le(img: Seq<u8>) -> bool {
    img[5] == 1
}

/// The bytes of the executable header that the section fields live in.
pub open spec fn elf_ehdr_size(img: Seq<u8>) -> int {
    if elf_is64(img) {
        0x40
    } else {
        0x34
    }
}

pub open spec fn elf_shoff(img: Seq<u8>) -> nat {
    if elf_is64(img) {
        spec_uint(img, 0x28, 8, elf_le(img))
    } else {
        spec_uint(img, 0x20, 4, elf_le(img))
    }
}

pub open spec fn elf_shentsize(img: Seq<u8>) -> nat {
    spec_uint(
        img,
        if elf_is64(img) {
            0x3A
        } else {
            0x2E
        },
        2,
        elf_le(img),
    )
}

pub open spec fn elf_shnum(img: Seq<u8>) -> nat {
    spec_uint(
        img,
        if elf_is64(img) {
            0x3C
        } else {
            0x30
        },
        2,
        elf_le(img),
    )
}

pub open spec fn elf_shstrndx(img: Seq<u8>) -> nat {
    spec_uint(
        img,
        if elf_is64(img) {
            0x3E
        } else {
            0x32
        },
        2,
        elf_le(img),
    )
}

/// The declared size of one section header entry may not undercut the fields
/// read out of it.
pub open spec fn elf_shdr_min(img: Seq<u8>) -> nat {
    if elf_is64(img) {
        0x40
    } else {
        0x28
    }
}

pub open spec fn elf_sh_name(img: Seq<u8>, i: int) -> nat {
    spec_uint(img, elf_shoff(img) + i * elf_shentsize(img), 4, elf_le(img))
}

pub open spec fn elf_sh_offset(img: Seq<u8>, i: int) -> nat {
    if elf_is64(img) {
        spec_uint(img, elf_shoff(img) + i * elf_shentsize(img) + 0x18, 8, elf_le(img))
    } else {
        spec_uint(img, elf_shoff(img) + i * elf_shentsize(img) + 0x10, 4, elf_le(img))
    }
}

pub open spec fn elf_sh_size(img: Seq<u8>, i: int) -> nat {
    if elf_is64(img) {
        spec_uint(img, elf_shoff(img) + i * elf_shentsize(img) + 0x20, 8, elf_le(img))
    } else {
        spec_uint(img, elf_shoff(img) + i * elf_shentsize(img) + 0x14, 4, elf_le(img))
    }
}

/// The header and the section/string tables are present and in bounds.
pub open spec fn elf_table_ok(img: Seq<u8>) -> bool {
    &&& elf_magic_ok(img)
    &&& img.len() >= elf_ehdr_size(img)
    &&& elf_shoff(img) != 0
    &&& elf_shnum(img) > 0
    &&& elf_shentsize(img) >= elf_shdr_min(img)
    &&& elf_shoff(img) + elf_shnum(img) * elf_shentsize(img) <= img.len()
    &&& elf_shstrndx(img) != 0
    &&& elf_shstrndx(img) < elf_shnum(img)
    &&& elf_sh_offset(img, elf_shstrndx(img) as int) + elf_sh_size(img, elf_shstrndx(img) as int)
        <= img.len()
}

/// The string-table bytes named by `e_shstrndx`.
pub open spec fn elf_strtab(img: Seq<u8>) -> Seq<u8> {
    img.subrange(
        elf_sh_offset(img, elf_shstrndx(img) as int) as int,
        (elf_sh_offset(img, elf_shstrndx(img) as int) + elf_sh_size(
            img,
            elf_shstrndx(img) as int,
        )) as int,
    )
}

pub open spec fn elf_name_bytes(img: Seq<u8>, i: int) -> Seq<u8> {
    name_bytes_at(elf_strtab(img), elf_sh_name(img, i) as int)
}

/// Entry `i` can be surfaced: its name is well-formed and its runtime
/// address and size fit the address space.
pub open spec fn elf_entry_ok(img: Seq<u8>, i: int, base: int) -> bool {
    &&& name_at_ok(elf_strtab(img), elf_sh_name(img, i) as int)
    &&& base + elf_sh_offset(img, i) <= usize::MAX
    &&& elf_sh_size(img, i) <= usize::MAX
}

/// The whole image parses: tables in bounds and every entry well-formed.
pub open spec fn elf_ok(img: Seq<u8>, base: int) -> bool {
    &&& elf_table_ok(img)
    &&& forall|i: int| 0 <= i < elf_shnum(img) ==> elf_entry_ok(img, i, base)
}

/// Reads the name offset, file offset and size fields of section header `i`.
fn read_shdr(img: &Vec<u8>, is64: bool, le: bool, shoff: u64, shentsize: u16, i: u16) -> (r: (
    u32,
    u64,
    u64,
))
    requires
        is64 == elf_is64(img@),
        le == elf_le(img@),
        shoff == elf_shoff(img@),
        shentsize == elf_shentsize(img@),
        shentsize >= elf_shdr_min(img@),
        shoff + ((i as nat) + 1) * (shentsize as nat) <= img@.len(),
    ensures
        r.0 == elf_sh_name(img@, i as int),
        r.1 == elf_sh_offset(img@, i as int),
        r.2 == elf_sh_size(img@, i as int),
{
    let len = img.len();
    proof {
        lemma_mul_mono(i as int, i as int + 1, shentsize as int);
        lemma_u16_mul_bound(i, shentsize);
    }
    let entry: u64 = shoff + (i as u64) * (shentsize as u64);
    assert(entry + elf_shdr_min(img@) <= len);
    let base = entry as usize;
    let name_off = read_u32(img, base, le);
    if is64 {
        let offset = read_u64(img, base + 0x18, le);
        let size = read_u64(img, base + 0x20, le);
        (name_off, offset, size)
    } else {
        let offset = read_u32(img, base + 0x10, le);
        let size = read_u32(img, base + 0x14, le);
        (name_off, offset as u64, size as u64)
    }
}

/// Parses the section header table and string table of an ELF object file,
/// giving each section its runtime address `base_addr + file offset`.
///
/// Succeeds exactly on images whose header, section table and string table
/// are present and in bounds and whose section names terminate and decode;
/// any malformation is surfaced as one descriptive failure.
pub fn parse_elf_sections(img: &Vec<u8>, base_addr: usize) -> (r: Result<
    Vec<SectionInfo>,
    &'static str,
>)
    ensures
        r is Ok <==> elf_ok(img@, base_addr as int),
        r matches Ok(ss) ==> {
            &&& ss@.len() == elf_shnum(img@)
            &&& forall|i: int| #![trigger ss@[i]] 0 <= i < ss@.len() ==> {
                &&& encode_utf8(ss@[i].name@) == elf_name_bytes(img@, i)
                &&& ss@[i].addr == base_addr + elf_sh_offset(img@, i)
                &&& ss@[i].size == elf_sh_size(img@, i)
            }
        },
{
    let len = img.len();
    if len < 6 {
        return Err("ELF header out of bounds");
    }
    if !(img[0] == 0x7f && img[1] == 0x45 && img[2] == 0x4c && img[3] == 0x46) {
        return Err("bad ELF magic");
    }
    let class = img[4];
    let data = img[5];
    if !(class == 1 || class == 2) || !(data == 1 || data == 2) {
        return Err("unsupported ELF class or byte order");
    }
    let is64 = class == 2;
    let le = data == 1;
    let ehdr_size: usize = if is64 {
        0x40
    } else {
        0x34
    };
    if len < ehdr_size {
        return Err("ELF header out of bounds");
    }
    let shoff: u64 = if is64 {
        read_u64(img, 0x28, le)
    } else {
        read_u32(img, 0x20, le) as u64
    };
    let shentsize: u16 = read_u16(
        img,
        if is64 {
            0x3A
        } else {
            0x2E
        },
        le,
    );
    let shnum: u16 = read_u16(
        img,
        if is64 {
            0x3C
        } else {
            0x30
        },
        le,
    );
    let shstrndx: u16 = read_u16(
        img,
        if is64 {
            0x3E
        } else {
            0x32
        },
        le,
    );
    if shoff == 0 || shnum == 0 {
        return Err("no section headers");
    }
    let min_ent: u16 = if is64 {
        0x40
    } else {
        0x28
    };
    if shentsize < min_ent {
        return Err("section header entries too small");
    }
    let len64 = len as u64;
    proof {
        lemma_u16_mul_bound(shnum, shentsize);
    }
    let table_bytes: u64 = (shnum as u64) * (shentsize as u64);
    if shoff > len64 || table_bytes > len64 - shoff {
        return Err("section table out of bounds");
    }
    if shstrndx == 0 || shstrndx >= shnum {
        return Err("no string table");
    }
    proof {
        lemma_mul_mono(shstrndx as int, shnum as int, shentsize as int);
    }
    let (_, str_off, str_size) = read_shdr(img, is64, le, shoff, shentsize, shstrndx);
    if str_off > len64 || str_size > len64 - str_off {
        return Err("string table out of bounds");
    }
    assert(elf_table_ok(img@));
    let strtab = copy_range(img, str_off as usize, str_size as usize);
    assert(strtab@ == elf_strtab(img@));

    let mut out: Vec<SectionInfo> = Vec::new();
    let mut i: u16 = 0;
    while i < shnum
        invariant
            0 <= i <= shnum,
            len == img@.len(),
            len64 == len as u64,
            is64 == elf_is64(img@),
            le == elf_le(img@),
            shoff == elf_shoff(img@),
            shentsize == elf_shentsize(img@),
            shnum == elf_shnum(img@),
            shentsize >= elf_shdr_min(img@),
            elf_table_ok(img@),
            strtab@ == elf_strtab(img@),
            out@.len() == i as int,
            forall|k: int| 0 <= k < i as int ==> elf_entry_ok(img@, k, base_addr as int),
            forall|k: int| #![trigger out@[k]] 0 <= k < i as int ==> {
                &&& encode_utf8(out@[k].name@) == elf_name_bytes(img@, k)
                &&& out@[k].addr == base_addr + elf_sh_offset(img@, k)
                &&& out@[k].size == elf_sh_size(img@, k)
            },
        decreases shnum - i,
    {
        proof {
            lemma_mul_mono(i as int, shnum as int, shentsize as int);
        }
        let (name_off, offset, size) = read_shdr(img, is64, le, shoff, shentsize, i);
        let name = match extract_name(&strtab, name_off) {
            Some(s) => s,
            None => {
                proof {
                    assert(!elf_entry_ok(img@, i as int, base_addr as int));
                    assert(!elf_ok(img@, base_addr as int));
                }
                return Err("bad section name");
            },
        };
        if offset > usize::MAX as u64 - base_addr as u64 {
            proof {
                assert(!elf_entry_ok(img@, i as int, base_addr as int));
                assert(!elf_ok(img@, base_addr as int));
            }
            return Err("section address out of range");
        }
        if size > usize::MAX as u64 {
            proof {
                assert(!elf_entry_ok(img@, i as int, base_addr as int));
                assert(!elf_ok(img@, base_addr as int));
            }
            return Err("section size out of range");
        }
        out.push(SectionInfo { name, addr: base_addr + offset as usize, size: size as usize });
        i = i + 1;
    }
    assert(elf_ok(img@, base_addr as int));
    Ok(out)
}

// ---------------------------------------------------------------------------
// PE images
// ---------------------------------------------------------------------------
/// `s` with its trailing zero bytes removed.
pub open spec fn strip_zeros(s: Seq<u8>) -> Seq<u8>
    decreases s.len(),
{
    if s.len() > 0 && s[s.len() - 1] == 0 {
        strip_zeros(s.drop_last())
    } else {
        s
    }
}

pub open spec fn pe_lfanew(img: Seq<u8>) -> nat {
    spec_uint(img, 0x3C, 4, true)
}

pub open spec fn pe_nsections(img: Seq<u8>) -> nat {
    spec_uint(img, pe_lfanew(img) as int + 6, 2, true)
}

pub open spec fn pe_optsize(img: Seq<u8>) -> nat {
    spec_uint(img, pe_lfanew(img) as int + 20, 2, true)
}

/// The file offset of the section table: right after the COFF header and the
/// optional header.
pub open spec fn pe_table_off(img: Seq<u8>) -> nat {
    pe_lfanew(img) + 24 + pe_optsize(img)
}

pub open spec fn pe_table_ok(img: Seq<u8>) -> bool {
    &&& img.len() >= 0x40
    &&& spec_uint(img, 0, 2, true) == 0x5A4D
    &&& pe_lfanew(img) + 24 <= img.len()
    &&& spec_uint(img, pe_lfanew(img) as int, 4, true) == 0x4550
    &&& pe_table_off(img) + pe_nsections(img) * 40 <= img.len()
}

/// The 8 raw bytes of section `i`'s name field.
pub open spec fn pe_raw_name(img: Seq<u8>, i: int) -> Seq<u8> {
    img.subrange(
        (pe_table_off(img) + 40 * i) as int,
        (pe_table_off(img) + 40 * i + 8) as int,
    )
}

pub open spec fn pe_name_bytes(img: Seq<u8>, i: int) -> Seq<u8> {
    strip_zeros(pe_raw_name(img, i))
}

pub open spec fn pe_vsize(img: Seq<u8>, i: int) -> nat {
    spec_uint(img, pe_table_off(img) + 40 * i + 8, 4, true)
}

pub open spec fn pe_vaddr(img: Seq<u8>, i: int) -> nat {
    spec_uint(img, pe_table_off(img) + 40 * i + 12, 4, true)
}

pub open spec fn pe_ok(img: Seq<u8>, base: int) -> bool {
    &&& pe_table_ok(img)
    &&& forall|i: int| 0 <= i < pe_nsections(img) ==> base + pe_vaddr(img, i) <= usize::MAX
}

/// Parses the section table of a PE image already mapped in memory, giving
/// each section its runtime address `base_addr + declared virtual address`.
/// A name that does not decode becomes the empty string, as an absent name
/// would; the entry itself is kept.
pub fn parse_pe_sections(img: &Vec<u8>, base_addr: usize) -> (r: Result<
    Vec<SectionInfo>,
    &'static str,
>)
    ensures
        r is Ok <==> pe_ok(img@, base_addr as int),
        r matches Ok(ss) ==> {
            &&& ss@.len() == pe_nsections(img@)
            &&& forall|i: int| #![trigger ss@[i]] 0 <= i < ss@.len() ==> {
                &&& (valid_utf8(pe_name_bytes(img@, i)) ==> encode_utf8(ss@[i].name@)
                    == pe_name_bytes(img@, i))
                &&& (!valid_utf8(pe_name_bytes(img@, i)) ==> ss@[i].name@ == Seq::<char>::empty())
                &&& ss@[i].addr == base_addr + pe_vaddr(img@, i)
                &&& ss@[i].size == pe_vsize(img@, i)
            }
        },
{
    let len = img.len();
    if len < 0x40 {
        return Err("DOS header out of bounds");
    }
    if read_u16(img, 0, true) != 0x5A4D {
        return Err("bad DOS magic");
    }
    let lfanew: u32 = read_u32(img, 0x3C, true);
    let len64 = len as u64;
    if lfanew as u64 > len64 || 24 > len64 - lfanew as u64 {
        return Err("PE header out of bounds");
    }
    if read_u32(img, lfanew as usize, true) != 0x4550 {
        return Err("bad PE signature");
    }
    let nsec: u16 = read_u16(img, lfanew as usize + 6, true);
    let optsize: u16 = read_u16(img, lfanew as usize + 20, true);
    let rem: u64 = len64 - (lfanew as u64 + 24);
    if optsize as u64 > rem {
        return Err("section table out of bounds");
    }
    let toff: u64 = lfanew as u64 + 24 + optsize as u64;
    if (nsec as u64) * 40 > len64 - toff {
        return Err("section table out of bounds");
    }
    assert(pe_table_ok(img@));

    let mut out: Vec<SectionInfo> = Vec::new();
    let mut i: u16 = 0;
    while i < nsec
        invariant
            0 <= i <= nsec,
            len == img@.len(),
            len64 == len as u64,
            nsec == pe_nsections(img@),
            toff == pe_table_off(img@),
            toff + (nsec as nat) * 40 <= len,
            pe_table_ok(img@),
            out@.len() == i as int,
            forall|k: int| 0 <= k < i as int ==> base_addr + pe_vaddr(img@, k) <= usize::MAX,
            forall|k: int| #![trigger out@[k]] 0 <= k < i as int ==> {
                &&& (valid_utf8(pe_name_bytes(img@, k)) ==> encode_utf8(out@[k].name@)
                    == pe_name_bytes(img@, k))
                &&& (!valid_utf8(pe_name_bytes(img@, k)) ==> out@[k].name@
                    == Seq::<char>::empty())
                &&& out@[k].addr == base_addr + pe_vaddr(img@, k)
                &&& out@[k].size == pe_vsize(img@, k)
            },
        decreases nsec - i,
    {
        let entry: u64 = toff + 40 * (i as u64);
        assert(entry + 40 <= len);
        let eoff = entry as usize;
        let mut name_bytes = copy_range(img, eoff, 8);
        assert(name_bytes@ == pe_raw_name(img@, i as int));
        while name_bytes.len() > 0 && name_bytes[name_bytes.len() - 1] == 0
            invariant
                strip_zeros(name_bytes@) == strip_zeros(pe_raw_name(img@, i as int)),
            decreases name_bytes.len(),
        {
            name_bytes.pop();
        }
        assert(strip_zeros(name_bytes@) == name_bytes@);
        let name = match bytes_to_string(name_bytes) {
            Some(s) => s,
            None => String::new(),
        };
        let vsize: u32 = read_u32(img, eoff + 8, true);
        let vaddr: u32 = read_u32(img, eoff + 12, true);
        if vaddr as u64 > usize::MAX as u64 - base_addr as u64 {
            proof {
                assert(!(base_addr + pe_vaddr(img@, i as int) <= usize::MAX));
                assert(!pe_ok(img@, base_addr as int));
            }
            return Err("section address out of range");
        }
        out.push(
            SectionInfo { name, addr: base_addr + vaddr as usize, size: vsize as usize },
        );
        i = i + 1;
    }
    assert(pe_ok(img@, base_addr as int));
    Ok(out)
}

} // verus!
