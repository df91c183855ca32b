//! The object-file loader: lay out sections in a staging buffer, append
//! inline replacements for the platform runtime helpers the object references
//! but nothing links, resolve the text section's relocations, and hand back a
//! callable image.  Every address computation is a plain integer calculation
//! over the records extracted from the object file.
use vstd::prelude::*;

use object::{Object, ObjectSection, ObjectSymbol};

use crate::exec_page::{ExecPage, PAGE_SIZE, spec_site_value};
use crate::{spec_align, align_usize, lemma_align_properties};
use crate::arm_types::str_eq;
use vstd::bytes::{spec_u32_to_le_bytes, spec_u32_from_le_bytes, spec_u64_to_le_bytes};

verus! {

/// One section of the object file, as plain data.
#[derive(Debug)]
pub struct SectionRec {
    pub index: usize,
    pub name: String,
    pub size: u64,
    pub align: u64,
    pub data: Vec<u8>,
}

/// Mathematical image of a section record.
pub struct SectionV {
    pub index: usize,
    pub name: Seq<char>,
    pub size: u64,
    pub align: u64,
    pub data: Seq<u8>,
}

impl View for SectionRec {
    type V = SectionV;

    open spec fn view(&self) -> SectionV {
        SectionV {
            index: self.index,
            name: self.name@,
            size: self.size,
            align: self.align,
            data: self.data@,
        }
    }
}

/// One symbol of the object file, as plain data.
#[derive(Debug)]
pub struct SymbolRec {
    pub name: String,
    pub address: u64,
    pub section_index: Option<usize>,
}

pub struct SymbolV {
    pub name: Seq<char>,
    pub address: u64,
    pub section_index: Option<usize>,
}

impl View for SymbolRec {
    type V = SymbolV;

    open spec fn view(&self) -> SymbolV {
        SymbolV { name: self.name@, address: self.address, section_index: self.section_index }
    }
}

/// One relocation of the text section, as plain data.
#[derive(Debug, Clone, Copy, PartialEq, Eq, Structural)]
pub struct RelocRec {
    /// The patch site's offset inside the text section.
    pub addr: u64,
    /// Whether the operation is the generic PC-relative one.
    pub is_relative: bool,
    /// The format-specific numeric relocation code, when the format exposes
    /// one.
    pub elf_code: Option<u32>,
    /// Whether the result encoding is the generic little-endian integer.
    pub generic_encoding: bool,
    /// Whether the result encoding is an AArch64 call instruction.
    pub aarch64_call_encoding: bool,
    /// The size in bits of the patch site.
    pub size_bits: u8,
    pub addend: i64,
    pub has_implicit_addend: bool,
    /// The index of the target symbol, when the target is a symbol.
    pub target_symbol: Option<usize>,
}

/// The x86-64 byte-store loop standing in for `memset`.
pub open spec fn spec_memset_stub() -> Seq<u8> {
    seq![72u8, 137u8, 200u8, 77u8, 133u8, 192u8, 116u8, 19u8, 49u8, 201u8, 102u8, 15u8, 31u8, 68u8, 0u8, 0u8, 136u8, 20u8, 8u8, 72u8, 255u8, 193u8, 73u8, 57u8, 200u8, 117u8, 245u8, 195u8]
}

/// The stack-probe prologue expansion standing in for `__chkstk`.
pub open spec fn spec_chkstk_stub() -> Seq<u8> {
    seq![72u8, 131u8, 236u8, 16u8, 76u8, 137u8, 20u8, 36u8, 76u8, 137u8, 92u8, 36u8, 8u8, 77u8, 51u8, 219u8, 76u8, 141u8, 84u8, 36u8, 24u8, 76u8, 43u8, 208u8, 77u8, 15u8, 66u8, 211u8, 101u8, 76u8, 139u8, 28u8, 37u8, 16u8, 0u8, 0u8, 0u8, 77u8, 59u8, 211u8, 115u8, 22u8, 102u8, 65u8, 129u8, 226u8, 0u8, 240u8, 77u8, 141u8, 155u8, 0u8, 240u8, 255u8, 255u8, 65u8, 198u8, 3u8, 0u8, 77u8, 59u8, 211u8, 117u8, 240u8, 76u8, 139u8, 20u8, 36u8, 76u8, 139u8, 92u8, 36u8, 8u8, 72u8, 131u8, 196u8, 16u8, 195u8]
}

/// A small constant region standing in for `__stack_chk_guard`.
pub open spec fn spec_guard_stub() -> Seq<u8> {
    seq![0u8, 0u8, 0u8, 0u8]
}

/// A ret-only stub standing in for `__stack_chk_fail`.
pub open spec fn spec_chk_fail_stub() -> Seq<u8> {
    seq![195u8]
}

/// The AArch64 no-op instruction written over neutralized guard sites.
pub open spec fn spec_noop_insn() -> Seq<u8> {
    seq![31u8, 32u8, 3u8, 213u8]
}

fn memset_stub() -> (r: Vec<u8>)
    ensures
        r@ =~= spec_memset_stub(),
{
    let mut r: Vec<u8> = Vec::new();
        r.push(72u8);
        r.push(137u8);
        r.push(200u8);
        r.push(77u8);
        r.push(133u8);
        r.push(192u8);
        r.push(116u8);
        r.push(19u8);
        r.push(49u8);
        r.push(201u8);
        r.push(102u8);
        r.push(15u8);
        r.push(31u8);
        r.push(68u8);
        r.push(0u8);
        r.push(0u8);
        r.push(136u8);
        r.push(20u8);
        r.push(8u8);
        r.push(72u8);
        r.push(255u8);
        r.push(193u8);
        r.push(73u8);
        r.push(57u8);
        r.push(200u8);
        r.push(117u8);
        r.push(245u8);
        r.push(195u8);
    r
}

#[verifier::rlimit(100)]
fn chkstk_stub() -> (r: Vec<u8>)
    ensures
        r@ =~= spec_chkstk_stub(),
{
    let mut r: Vec<u8> = Vec::new();
        r.push(72u8);
        r.push(131u8);
        r.push(236u8);
        r.push(16u8);
        r.push(76u8);
        r.push(137u8);
        r.push(20u8);
        r.push(36u8);
        r.push(76u8);
        r.push(137u8);
        r.push(92u8);
        r.push(36u8);
        r.push(8u8);
        r.push(77u8);
        r.push(51u8);
        r.push(219u8);
        r.push(76u8);
        r.push(141u8);
        r.push(84u8);
        r.push(36u8);
        r.push(24u8);
        r.push(76u8);
        r.push(43u8);
        r.push(208u8);
        r.push(77u8);
        r.push(15u8);
        r.push(66u8);
        r.push(211u8);
        r.push(101u8);
        r.push(76u8);
        r.push(139u8);
        r.push(28u8);
        r.push(37u8);
        r.push(16u8);
        r.push(0u8);
        r.push(0u8);
        r.push(0u8);
        r.push(77u8);
        r.push(59u8);
        r.push(211u8);
        r.push(115u8);
        r.push(22u8);
        r.push(102u8);
        r.push(65u8);
        r.push(129u8);
        r.push(226u8);
        r.push(0u8);
        r.push(240u8);
        r.push(77u8);
        r.push(141u8);
        r.push(155u8);
        r.push(0u8);
        r.push(240u8);
        r.push(255u8);
        r.push(255u8);
        r.push(65u8);
        r.push(198u8);
        r.push(3u8);
        r.push(0u8);
        r.push(77u8);
        r.push(59u8);
        r.push(211u8);
        r.push(117u8);
        r.push(240u8);
        r.push(76u8);
        r.push(139u8);
        r.push(20u8);
        r.push(36u8);
        r.push(76u8);
        r.push(139u8);
        r.push(92u8);
        r.push(36u8);
        r.push(8u8);
        r.push(72u8);
        r.push(131u8);
        r.push(196u8);
        r.push(16u8);
        r.push(195u8);
    r
}

fn guard_stub() -> (r: Vec<u8>)
    ensures
        r@ =~= spec_guard_stub(),
{
    let mut r: Vec<u8> = Vec::new();
        r.push(0u8);
        r.push(0u8);
        r.push(0u8);
        r.push(0u8);
    r
}

fn chk_fail_stub() -> (r: Vec<u8>)
    ensures
        r@ =~= spec_chk_fail_stub(),
{
    let mut r: Vec<u8> = Vec::new();
        r.push(195u8);
    r
}

fn noop_insn() -> (r: Vec<u8>)
    ensures
        r@ =~= spec_noop_insn(),
{
    let mut r: Vec<u8> = Vec::new();
        r.push(31u8);
        r.push(32u8);
        r.push(3u8);
        r.push(213u8);
    r
}

} // verus!

verus! {

/// Zero-pad a buffer to a multiple of `a`.
pub open spec fn spec_pad_to(buf: Seq<u8>, a: nat) -> Seq<u8>
    recommends
        a >= 1,
{
    buf + Seq::new((spec_align(buf.len(), a) - buf.len()) as nat, |i: int| 0u8)
}

/// The effective alignment of a section: its declared alignment, or one.
pub open spec fn spec_eff_align(a: u64) -> nat {
    if a == 0 {
        1
    } else {
        a as nat
    }
}

/// The staging buffer and section-index-to-base map after laying out the
/// first `k` sections: each non-empty, non-comment section is appended at
/// its alignment.
pub open spec fn spec_layout(sections: Seq<SectionV>, k: int) -> (Seq<u8>, Seq<(usize, usize)>)
    decreases k,
{
    if k <= 0 {
        (Seq::empty(), Seq::empty())
    } else {
        let (buf, m) = spec_layout(sections, k - 1);
        let s = sections[k - 1];
        if s.size > 0 && s.name != ".comment"@ {
            let padded = spec_pad_to(buf, spec_eff_align(s.align));
            (padded + s.data, m.push((s.index, padded.len() as usize)))
        } else {
            (buf, m)
        }
    }
}

/// The first map entry for section `idx`.
pub open spec fn spec_lookup_base(m: Seq<(usize, usize)>, idx: usize) -> Option<usize>
    decreases m.len(),
{
    if m.len() == 0 {
        None
    } else if m[0].0 == idx {
        Some(m[0].1)
    } else {
        spec_lookup_base(m.drop_first(), idx)
    }
}

/// The staging buffer and the four stub offsets after scanning the first `k`
/// symbols: the first occurrence of each neutralized runtime helper appends
/// its inline replacement.
pub open spec fn spec_add_stubs(buf: Seq<u8>, symbols: Seq<SymbolV>, k: int) -> (
    Seq<u8>,
    Option<usize>,
    Option<usize>,
    Option<usize>,
    Option<usize>,
)
    decreases k,
{
    if k <= 0 {
        (buf, None, None, None, None)
    } else {
        let (b, memset_off, chkstk_off, guard_off, fail_off) = spec_add_stubs(buf, symbols, k - 1);
        let s = symbols[k - 1];
        if memset_off is None && s.name == "memset"@ {
            (b + spec_memset_stub(), Some(b.len() as usize), chkstk_off, guard_off, fail_off)
        } else if chkstk_off is None && s.name == "__chkstk"@ {
            (b + spec_chkstk_stub(), memset_off, Some(b.len() as usize), guard_off, fail_off)
        } else if guard_off is None && s.name == "__stack_chk_guard"@ {
            let padded = spec_pad_to(b, 4);
            (
                padded + spec_guard_stub(),
                memset_off,
                chkstk_off,
                Some(padded.len() as usize),
                fail_off,
            )
        } else if fail_off is None && s.name == "__stack_chk_fail"@ {
            (b + spec_chk_fail_stub(), memset_off, chkstk_off, guard_off, Some(b.len() as usize))
        } else {
            (b, memset_off, chkstk_off, guard_off, fail_off)
        }
    }
}

/// The first section named `.text`.
pub open spec fn spec_find_text(sections: Seq<SectionV>) -> Option<int>
    decreases sections.len(),
{
    if sections.len() == 0 {
        None
    } else if sections[0].name == ".text"@ {
        Some(0int)
    } else {
        match spec_find_text(sections.drop_first()) {
            Some(i) => Some(i + 1),
            None => None,
        }
    }
}

/// The first symbol with the given name.
pub open spec fn spec_find_symbol(symbols: Seq<SymbolV>, name: Seq<char>) -> Option<int>
    decreases symbols.len(),
{
    if symbols.len() == 0 {
        None
    } else if symbols[0].name == name {
        Some(0int)
    } else {
        match spec_find_symbol(symbols.drop_first(), name) {
            Some(i) => Some(i + 1),
            None => None,
        }
    }
}

/// Zero-pad the staging buffer to a multiple of `alignment`.
pub fn align_vec(vec: &mut Vec<u8>, alignment: usize)
    requires
        alignment >= 1,
        old(vec)@.len() + alignment <= usize::MAX,
    ensures
        final(vec)@ =~= spec_pad_to(old(vec)@, alignment as nat),
        final(vec)@.len() == spec_align(old(vec)@.len(), alignment as nat),
{
    proof {
        lemma_align_properties(old(vec)@.len(), alignment as nat);
    }
    let target = align_usize(vec.len(), alignment);
    while vec.len() < target
        invariant
            old(vec)@.len() <= vec@.len() <= target,
            target == spec_align(old(vec)@.len(), alignment as nat),
            vec@ =~= old(vec)@ + Seq::new((vec@.len() - old(vec)@.len()) as nat, |i: int| 0u8),
        decreases target - vec@.len(),
    {
        vec.push(0u8);
        proof {
            assert(vec@ =~= old(vec)@ + Seq::new(
                (vec@.len() - old(vec)@.len()) as nat,
                |i: int| 0u8,
            ));
        }
    }
}

} // verus!

verus! {

/// Append all of `src` to `dst`.
fn extend_bytes(dst: &mut Vec<u8>, src: &[u8])
    ensures
        final(dst)@ =~= old(dst)@ + src@,
{
    let mut k: usize = 0;
    while k < src.len()
        invariant
            k <= src@.len(),
            dst@ =~= old(dst)@ + src@.subrange(0, k as int),
        decreases src@.len() - k,
    {
        let b = src[k];
        dst.push(b);
        proof {
            assert(dst@ =~= old(dst)@ + src@.subrange(0, k + 1));
        }
        k = k + 1;
    }
    proof {
        assert(src@.subrange(0, src@.len() as int) =~= src@);
    }
}

/// The records a well-behaved toolchain produces: few, small sections and
/// small addresses, so every offset computation fits the machine integers.
pub open spec fn records_bounded(
    sections: Seq<SectionV>,
    symbols: Seq<SymbolV>,
    relocs: Seq<RelocRec>,
) -> bool {
    &&& sections.len() <= 64
    &&& symbols.len() <= 1024
    &&& forall|i: int|
        0 <= i < sections.len() ==> (#[trigger] sections[i]).data.len() <= 0x0010_0000
            && sections[i].align <= 4096
    &&& forall|i: int| 0 <= i < symbols.len() ==> (#[trigger] symbols[i]).address <= 0x0010_0000
    &&& forall|i: int|
        0 <= i < relocs.len() ==> (#[trigger] relocs[i]).addr <= 0x0010_0000 && -0x0010_0000
            <= relocs[i].addend <= 0x0010_0000 && relocs[i].size_bits <= 64 && relocs[i].size_bits
            % 8 == 0
}

pub open spec fn sections_v(s: Seq<SectionRec>) -> Seq<SectionV> {
    Seq::new(s.len(), |i: int| s[i]@)
}

pub open spec fn symbols_v(s: Seq<SymbolRec>) -> Seq<SymbolV> {
    Seq::new(s.len(), |i: int| s[i]@)
}

/// Patch `width` little-endian bytes at `off`: the value, plus the site's
/// current bytes when the relocation carries an implicit addend.
pub open spec fn spec_patch_le(
    page: Seq<u8>,
    off: int,
    width: int,
    value: i64,
    implicit: bool,
) -> Seq<u8> {
    let cur = if implicit {
        spec_site_value(page, off, width)
    } else {
        0u64
    };
    page.subrange(0, off) + spec_u64_to_le_bytes((value as u64).wrapping_add(cur)).subrange(
        0,
        width,
    ) + page.subrange(off + width, page.len() as int)
}

/// Overwrite the 32-bit little-endian word at `off`.
pub open spec fn spec_patch_word(page: Seq<u8>, off: int, w: u32) -> Seq<u8> {
    page.subrange(0, off) + spec_u32_to_le_bytes(w) + page.subrange(off + 4, page.len() as int)
}

/// The 32-bit little-endian word at `off`.
pub open spec fn spec_word_at(page: Seq<u8>, off: int) -> u32 {
    spec_u32_from_le_bytes(page.subrange(off, off + 4))
}

/// The branch target of a generic PC-relative relocation: the target
/// symbol's staged address, or the inline replacement for a neutralized
/// runtime helper.
pub open spec fn spec_rel_target(
    smap: Seq<(usize, usize)>,
    sym: SymbolV,
    chkstk_off: Option<usize>,
    memset_off: Option<usize>,
    page_len: int,
) -> Option<i64> {
    match sym.section_index {
        Some(si) => match spec_lookup_base(smap, si) {
            Some(b) => if b > page_len {
                None
            } else {
                Some((b + sym.address) as i64)
            },
            None => None,
        },
        None => if sym.name == "__chkstk"@ {
            match chkstk_off {
                Some(o) => if o > page_len {
                    None
                } else {
                    Some(o as i64)
                },
                None => None,
            }
        } else if sym.name == "memset"@ {
            match memset_off {
                Some(o) => if o > page_len {
                    None
                } else {
                    Some(o as i64)
                },
                None => None,
            }
        } else {
            None
        },
    }
}

/// The absolute target of a format-specific relocation: the guard region for
/// the stack-protector guard symbol, else the symbol's staged address plus
/// the explicit addend.
pub open spec fn spec_elf_target(
    smap: Seq<(usize, usize)>,
    sym: SymbolV,
    addend: i64,
    guard_off: Option<usize>,
    page_len: int,
) -> Option<i64> {
    if sym.name == "__stack_chk_guard"@ {
        match guard_off {
            Some(o) => if o > page_len {
                None
            } else {
                Some(o as i64)
            },
            None => None,
        }
    } else {
        match sym.section_index {
            Some(si) => match spec_lookup_base(smap, si) {
                Some(b) => if b > page_len {
                    None
                } else {
                    Some((b + sym.address + addend) as i64)
                },
                None => None,
            },
            None => None,
        }
    }
}

/// The page bytes after one format-specific patch, by relocation code: the
/// AArch64 page-address, scaled-load, and add-immediate encodings, and the
/// guard loads that are overwritten with no-ops.
pub open spec fn spec_apply_elf(
    page: Seq<u8>,
    code: u32,
    insert_off: int,
    target: i64,
    guard_named: bool,
) -> Option<Seq<u8>> {
    if code == 275 {
        let rel = (target - insert_off) as i64;
        let v = ((rel >> 12u64) as i32) as u32;
        Some(
            spec_patch_word(
                page,
                insert_off,
                spec_word_at(page, insert_off) | ((v & 0x3) << 29) | (((v >> 2) & 0x7FFFF) << 5),
            ),
        )
    } else if code == 299 {
        if target < 0 {
            None
        } else {
            let off_in_page = target & 0xFFF;
            if off_in_page % 4 != 0 {
                None
            } else {
                Some(
                    spec_patch_word(
                        page,
                        insert_off,
                        spec_word_at(page, insert_off) | ((((off_in_page >> 2u64) as i32) as u32)
                            << 8u32),
                    ),
                )
            }
        }
    } else if code == 286 {
        if target < 0 {
            None
        } else {
            let off_in_page = target & 0xFFF;
            if off_in_page % 8 != 0 {
                None
            } else {
                Some(
                    spec_patch_word(
                        page,
                        insert_off,
                        spec_word_at(page, insert_off) | ((((off_in_page >> 2u64) as i32) as u32)
                            << 9u32),
                    ),
                )
            }
        }
    } else if code == 277 {
        if target < 0 {
            None
        } else {
            let off_in_page = target & 0xFFF;
            if off_in_page % 8 != 0 {
                None
            } else {
                Some(
                    spec_patch_word(
                        page,
                        insert_off,
                        spec_word_at(page, insert_off) | (((off_in_page as i32) as u32) << 10u32),
                    ),
                )
            }
        }
    } else if code == 311 || code == 312 {
        if !guard_named {
            None
        } else {
            let p1 = spec_patch_word(page, insert_off, 0xD503201F);
            let p2 = spec_patch_word(p1, insert_off + 4, 0xD503201F);
            Some(spec_patch_word(p2, insert_off + 8, 0xD503201F))
        }
    } else {
        None
    }
}

/// The page bytes after resolving one relocation, or `None` when the
/// relocation is of a kind the loader refuses to guess at or its site falls
/// outside the image.
pub open spec fn spec_apply_reloc(
    page: Seq<u8>,
    smap: Seq<(usize, usize)>,
    symbols: Seq<SymbolV>,
    reloc: RelocRec,
    text_base: usize,
    memset_off: Option<usize>,
    chkstk_off: Option<usize>,
    guard_off: Option<usize>,
    fail_off: Option<usize>,
) -> Option<Seq<u8>> {
    let page_len = page.len() as int;
    match reloc.target_symbol {
        None => None,
        Some(sym_i) => if sym_i >= symbols.len() {
            None
        } else {
            let sym = symbols[sym_i as int];
            let insert_off = text_base + reloc.addr;
            if reloc.is_relative && reloc.generic_encoding {
                match spec_rel_target(smap, sym, chkstk_off, memset_off, page_len) {
                    None => None,
                    Some(target) => {
                        let width = reloc.size_bits as int / 8;
                        if insert_off + width > page_len {
                            None
                        } else {
                            let rel = (target - insert_off + reloc.addend) as i64;
                            Some(
                                spec_patch_le(
                                    page,
                                    insert_off,
                                    width,
                                    rel,
                                    reloc.has_implicit_addend,
                                ),
                            )
                        }
                    },
                }
            } else if reloc.elf_code is Some {
                let code = reloc.elf_code.unwrap();
                if reloc.has_implicit_addend {
                    None
                } else {
                    match spec_elf_target(smap, sym, reloc.addend, guard_off, page_len) {
                        None => None,
                        Some(target) => if insert_off + 12 > page_len {
                            None
                        } else {
                            spec_apply_elf(
                                page,
                                code,
                                insert_off,
                                target,
                                sym.name == "__stack_chk_guard"@,
                            )
                        },
                    }
                }
            } else if reloc.aarch64_call_encoding {
                if sym.name != "__stack_chk_fail"@ {
                    None
                } else if insert_off + 4 > page_len {
                    None
                } else {
                    Some(spec_patch_word(page, insert_off, 0xD503201F))
                }
            } else if reloc.generic_encoding {
                if sym.name != "__stack_chk_fail"@ {
                    None
                } else {
                    match fail_off {
                        None => None,
                        Some(o) => if o > page_len {
                            None
                        } else {
                            let width = reloc.size_bits as int / 8;
                            if insert_off + width > page_len {
                                None
                            } else {
                                let rel = (o - insert_off + reloc.addend) as i64;
                                Some(
                                    spec_patch_le(
                                        page,
                                        insert_off,
                                        width,
                                        rel,
                                        reloc.has_implicit_addend,
                                    ),
                                )
                            }
                        },
                    }
                }
            } else {
                None
            }
        },
    }
}

/// The page bytes after resolving the first `k` relocations in order;
/// `None` as soon as one is refused.
pub open spec fn spec_apply_relocs(
    page: Seq<u8>,
    smap: Seq<(usize, usize)>,
    symbols: Seq<SymbolV>,
    relocs: Seq<RelocRec>,
    k: int,
    text_base: usize,
    memset_off: Option<usize>,
    chkstk_off: Option<usize>,
    guard_off: Option<usize>,
    fail_off: Option<usize>,
) -> Option<Seq<u8>>
    decreases k,
{
    if k <= 0 {
        Some(page)
    } else {
        match spec_apply_relocs(
            page,
            smap,
            symbols,
            relocs,
            k - 1,
            text_base,
            memset_off,
            chkstk_off,
            guard_off,
            fail_off,
        ) {
            None => None,
            Some(p) => spec_apply_reloc(
                p,
                smap,
                symbols,
                relocs[k - 1],
                text_base,
                memset_off,
                chkstk_off,
                guard_off,
                fail_off,
            ),
        }
    }
}

/// Once one relocation is refused, every longer prefix is refused too.
pub proof fn lemma_relocs_none_absorbing(
    page: Seq<u8>,
    smap: Seq<(usize, usize)>,
    symbols: Seq<SymbolV>,
    relocs: Seq<RelocRec>,
    k: int,
    n: int,
    text_base: usize,
    memset_off: Option<usize>,
    chkstk_off: Option<usize>,
    guard_off: Option<usize>,
    fail_off: Option<usize>,
)
    requires
        0 <= k <= n,
        spec_apply_relocs(
            page,
            smap,
            symbols,
            relocs,
            k,
            text_base,
            memset_off,
            chkstk_off,
            guard_off,
            fail_off,
        ) is None,
    ensures
        spec_apply_relocs(
            page,
            smap,
            symbols,
            relocs,
            n,
            text_base,
            memset_off,
            chkstk_off,
            guard_off,
            fail_off,
        ) is None,
    decreases n - k,
{
    if n > k {
        lemma_relocs_none_absorbing(
            page,
            smap,
            symbols,
            relocs,
            k,
            n - 1,
            text_base,
            memset_off,
            chkstk_off,
            guard_off,
            fail_off,
        );
    }
}

/// The image the loader owes for the extracted records: the laid-out,
/// stubbed staging buffer in a zeroed eight-page image with every text
/// relocation resolved, the named function's offset, and the staged size.
pub open spec fn spec_compose(
    sections: Seq<SectionV>,
    symbols: Seq<SymbolV>,
    relocs: Seq<RelocRec>,
    func_name: Seq<char>,
) -> Option<(Seq<u8>, usize, usize)> {
    let (staging, smap) = spec_layout(sections, sections.len() as int);
    let (staged, memset_off, chkstk_off, guard_off, fail_off) = spec_add_stubs(
        staging,
        symbols,
        symbols.len() as int,
    );
    match spec_find_text(sections) {
        None => None,
        Some(ti) => match spec_find_symbol(symbols, func_name) {
            None => None,
            Some(fi) => match spec_lookup_base(smap, sections[ti].index) {
                None => None,
                Some(tb) => if staged.len() > 8 * PAGE_SIZE || tb > 8 * PAGE_SIZE {
                    None
                } else {
                    let func_off = (tb + symbols[fi].address) as usize;
                    let init = staged + Seq::new(
                        (8 * PAGE_SIZE - staged.len()) as nat,
                        |i: int| 0u8,
                    );
                    match spec_apply_relocs(
                        init,
                        smap,
                        symbols,
                        relocs,
                        relocs.len() as int,
                        tb,
                        memset_off,
                        chkstk_off,
                        guard_off,
                        fail_off,
                    ) {
                        None => None,
                        Some(p) => Some((p, func_off, staged.len() as usize)),
                    }
                },
            },
        },
    }
}

/// Find the first map entry for `idx`.
fn lookup_base(map: &Vec<(usize, usize)>, idx: usize) -> (r: Option<usize>)
    ensures
        r == spec_lookup_base(map@, idx),
{
    proof {
        assert(map@.skip(0) =~= map@);
    }
    let mut k: usize = 0;
    while k < map.len()
        invariant
            k <= map@.len(),
            spec_lookup_base(map@, idx) == spec_lookup_base(map@.skip(k as int), idx),
        decreases map@.len() - k,
    {
        let e = map[k];
        proof {
            assert(map@.skip(k as int)[0] == map@[k as int]);
            assert(map@.skip(k as int).drop_first() =~= map@.skip(k as int + 1));
        }
        if e.0 == idx {
            return Some(e.1);
        }
        k = k + 1;
    }
    proof {
        assert(map@.skip(map@.len() as int) =~= Seq::<(usize, usize)>::empty());
    }
    None
}

} // verus!

verus! {

/// Resolve one relocation against the image, mirroring the refusals of
/// `spec_apply_reloc` exactly: `false` when the relocation is refused, with
/// the image untouched.
#[verifier::rlimit(100)]
fn apply_reloc(
    exec_page: &mut ExecPage,
    section_map: &Vec<(usize, usize)>,
    symbols: &Vec<SymbolRec>,
    reloc: RelocRec,
    text_base: usize,
    memset_off: Option<usize>,
    chkstk_off: Option<usize>,
    guard_off: Option<usize>,
    fail_off: Option<usize>,
) -> (ok: bool)
    requires
        old(exec_page).page@.len() == 8 * PAGE_SIZE,
        text_base <= 8 * PAGE_SIZE,
        reloc.addr <= 0x0010_0000,
        -0x0010_0000 <= reloc.addend <= 0x0010_0000,
        reloc.size_bits <= 64,
        reloc.size_bits % 8 == 0,
        forall|i: int|
            0 <= i < symbols@.len() ==> (#[trigger] symbols_v(symbols@)[i]).address <= 0x0010_0000,
    ensures
        final(exec_page).page@.len() == old(exec_page).page@.len(),
        final(exec_page).func_offset == old(exec_page).func_offset,
        final(exec_page).code_size == old(exec_page).code_size,
        ok ==> spec_apply_reloc(
            old(exec_page).page@,
            section_map@,
            symbols_v(symbols@),
            reloc,
            text_base,
            memset_off,
            chkstk_off,
            guard_off,
            fail_off,
        ) == Some(final(exec_page).page@),
        !ok ==> spec_apply_reloc(
            old(exec_page).page@,
            section_map@,
            symbols_v(symbols@),
            reloc,
            text_base,
            memset_off,
            chkstk_off,
            guard_off,
            fail_off,
        ) is None && final(exec_page).page@ == old(exec_page).page@,
{
    let ghost yv = symbols_v(symbols@);
    let page_len: usize = 8 * PAGE_SIZE;
    let sym_i = match reloc.target_symbol {
        Some(i) => i,
        None => {
            return false;
        },
    };
    if sym_i >= symbols.len() {
        return false;
    }
    let sym = &symbols[sym_i];
    proof {
        assert(yv[sym_i as int].address <= 0x0010_0000);
    }
    let insert_off = text_base + (reloc.addr as usize);
    if reloc.is_relative && reloc.generic_encoding {
        let target: i64 = match sym.section_index {
            Some(si) => {
                match lookup_base(section_map, si) {
                    Some(b) => {
                        if b > page_len {
                            return false;
                        }
                        (b as i64) + (sym.address as i64)
                    },
                    None => {
                        return false;
                    },
                }
            },
            None => {
                if str_eq(sym.name.as_str(), "__chkstk") {
                    match chkstk_off {
                        Some(o) => {
                            if o > page_len {
                                return false;
                            }
                            o as i64
                        },
                        None => {
                            return false;
                        },
                    }
                } else if str_eq(sym.name.as_str(), "memset") {
                    match memset_off {
                        Some(o) => {
                            if o > page_len {
                                return false;
                            }
                            o as i64
                        },
                        None => {
                            return false;
                        },
                    }
                } else {
                    return false;
                }
            },
        };
        let width = (reloc.size_bits as usize) / 8;
        if insert_off + width > page_len {
            return false;
        }
        let rel = target - (insert_off as i64) + reloc.addend;
        exec_page.fix_up_redirect(
            insert_off,
            reloc.size_bits as usize,
            rel,
            reloc.has_implicit_addend,
        );
        true
    } else if reloc.elf_code.is_some() {
        let code = match reloc.elf_code {
            Some(c) => c,
            None => {
                return false;
            },
        };
        if reloc.has_implicit_addend {
            return false;
        }
        let target: i64 = if str_eq(sym.name.as_str(), "__stack_chk_guard") {
            match guard_off {
                Some(o) => {
                    if o > page_len {
                        return false;
                    }
                    o as i64
                },
                None => {
                    return false;
                },
            }
        } else {
            match sym.section_index {
                Some(si) => {
                    match lookup_base(section_map, si) {
                        Some(b) => {
                            if b > page_len {
                                return false;
                            }
                            (b as i64) + (sym.address as i64) + reloc.addend
                        },
                        None => {
                            return false;
                        },
                    }
                },
                None => {
                    return false;
                },
            }
        };
        if insert_off + 12 > page_len {
            return false;
        }
        if code == 275 {
            let rel = target - (insert_off as i64);
            let rel_pages = rel >> 12u64;
            proof {
                assert(-0x0800_0000i64 <= rel_pages <= 0x0800_0000i64) by (bit_vector)
                    requires
                        -0x0800_0000i64 <= rel <= 0x0800_0000i64,
                        rel_pages == rel >> 12u64,
                ;
            }
            exec_page.fix_up_arm_adrp_redirect(insert_off, rel_pages as i32);
            true
        } else if code == 299 {
            if target < 0 {
                return false;
            }
            let off_in_page = target & 0xFFF;
            proof {
                assert(0i64 <= off_in_page < 0x1000i64 && 0i64 <= (off_in_page >> 2u64)
                    < 0x400i64) by (bit_vector)
                    requires
                        off_in_page == target & 0xFFFi64,
                ;
            }
            if off_in_page % 4 != 0 {
                return false;
            }
            exec_page.fix_up_arm_ldr_offset_redirect(insert_off, (off_in_page >> 2u64) as i32, 8);
            true
        } else if code == 286 {
            if target < 0 {
                return false;
            }
            let off_in_page = target & 0xFFF;
            proof {
                assert(0i64 <= off_in_page < 0x1000i64 && 0i64 <= (off_in_page >> 2u64)
                    < 0x400i64) by (bit_vector)
                    requires
                        off_in_page == target & 0xFFFi64,
                ;
            }
            if off_in_page % 8 != 0 {
                return false;
            }
            exec_page.fix_up_arm_ldr_offset_redirect(insert_off, (off_in_page >> 2u64) as i32, 9);
            true
        } else if code == 277 {
            if target < 0 {
                return false;
            }
            let off_in_page = target & 0xFFF;
            proof {
                assert(0i64 <= off_in_page < 0x1000i64) by (bit_vector)
                    requires
                        off_in_page == target & 0xFFFi64,
                ;
            }
            if off_in_page % 8 != 0 {
                return false;
            }
            exec_page.fix_up_arm_add_immediate(insert_off, off_in_page as i32);
            true
        } else if code == 311 || code == 312 {
            if !str_eq(sym.name.as_str(), "__stack_chk_guard") {
                return false;
            }
            exec_page.write_u32_at(insert_off, 0xD503201F);
            exec_page.write_u32_at(insert_off + 4, 0xD503201F);
            exec_page.write_u32_at(insert_off + 8, 0xD503201F);
            true
        } else {
            return false;
        }
    } else if reloc.aarch64_call_encoding {
        if !str_eq(sym.name.as_str(), "__stack_chk_fail") {
            return false;
        }
        if insert_off + 4 > page_len {
            return false;
        }
        exec_page.write_u32_at(insert_off, 0xD503201F);
        true
    } else if reloc.generic_encoding {
        if !str_eq(sym.name.as_str(), "__stack_chk_fail") {
            return false;
        }
        let target: i64 = match fail_off {
            Some(o) => {
                if o > page_len {
                    return false;
                }
                o as i64
            },
            None => {
                return false;
            },
        };
        let width = (reloc.size_bits as usize) / 8;
        if insert_off + width > page_len {
            return false;
        }
        let rel = target - (insert_off as i64) + reloc.addend;
        exec_page.fix_up_redirect(
            insert_off,
            reloc.size_bits as usize,
            rel,
            reloc.has_implicit_addend,
        );
        true
    } else {
        return false;
    }
}

/// Lay the sections out, append the runtime stubs, resolve the text
/// section's relocations, and produce the callable image.  `None` exactly
/// when the spec-level composition refuses: the object lacks the target
/// symbol or a text section, a relocation is of a kind we refuse to guess
/// at, or the image cannot fit.
pub fn compose_image(
    sections: &Vec<SectionRec>,
    symbols: &Vec<SymbolRec>,
    relocs: &Vec<RelocRec>,
    func_name: &str,
) -> (r: Option<ExecPage>)
    requires
        records_bounded(sections_v(sections@), symbols_v(symbols@), relocs@),
    ensures
        ({
            let sv = sections_v(sections@);
            let yv = symbols_v(symbols@);
            match r {
                Some(p) => spec_compose(sv, yv, relocs@, func_name@) == Some(
                    (p.page@, p.func_offset, p.code_size),
                ),
                None => spec_compose(sv, yv, relocs@, func_name@) is None,
            }
        }),
        r matches Some(p) ==> p.page@.len() == 8 * PAGE_SIZE && p.code_size <= 8 * PAGE_SIZE,
{
    let ghost sv = sections_v(sections@);
    let ghost yv = symbols_v(symbols@);
    // Layout pass.
    let mut staging: Vec<u8> = Vec::new();
    let mut section_map: Vec<(usize, usize)> = Vec::new();
    let mut k: usize = 0;
    while k < sections.len()
        invariant
            sv == sections_v(sections@),
            records_bounded(sv, yv, relocs@),
            k <= sv.len(),
            sv.len() <= 64,
            staging@.len() <= k * 0x0010_1000,
            (staging@, section_map@) == spec_layout(sv, k as int),
        decreases sv.len() - k,
    {
        let s = &sections[k];
        if s.size > 0 && !str_eq(s.name.as_str(), ".comment") {
            let a64 = s.align;
            let a: usize = if a64 == 0 {
                1
            } else {
                a64 as usize
            };
            proof {
                assert(sv[k as int].data.len() <= 0x0010_0000);
                assert(sv[k as int].align <= 4096);
            }
            align_vec(&mut staging, a);
            section_map.push((s.index, staging.len()));
            extend_bytes(&mut staging, s.data.as_slice());
            proof {
                lemma_align_properties(spec_layout(sv, k as int).0.len(), a as nat);
                assert((staging@, section_map@) =~= spec_layout(sv, k + 1));
            }
        } else {
            proof {
                assert((staging@, section_map@) == spec_layout(sv, k + 1));
            }
        }
        k = k + 1;
    }
    // Runtime-symbol stubs.
    let mut memset_off: Option<usize> = None;
    let mut chkstk_off: Option<usize> = None;
    let mut guard_off: Option<usize> = None;
    let mut fail_off: Option<usize> = None;
    let ghost staging0 = staging@;
    let mut j: usize = 0;
    while j < symbols.len()
        invariant
            yv == symbols_v(symbols@),
            j <= yv.len(),
            yv.len() <= 1024,
            staging0.len() <= 64 * 0x0010_1000,
            staging@.len() <= staging0.len() + j * 128,
            (staging@, memset_off, chkstk_off, guard_off, fail_off) == spec_add_stubs(
                staging0,
                yv,
                j as int,
            ),
        decreases yv.len() - j,
    {
        let s = &symbols[j];
        if memset_off.is_none() && str_eq(s.name.as_str(), "memset") {
            memset_off = Some(staging.len());
            let stub = memset_stub();
            extend_bytes(&mut staging, stub.as_slice());
        } else if chkstk_off.is_none() && str_eq(s.name.as_str(), "__chkstk") {
            chkstk_off = Some(staging.len());
            let stub = chkstk_stub();
            extend_bytes(&mut staging, stub.as_slice());
        } else if guard_off.is_none() && str_eq(s.name.as_str(), "__stack_chk_guard") {
            proof {
                lemma_align_properties(staging@.len(), 4);
            }
            align_vec(&mut staging, 4);
            guard_off = Some(staging.len());
            let stub = guard_stub();
            extend_bytes(&mut staging, stub.as_slice());
        } else if fail_off.is_none() && str_eq(s.name.as_str(), "__stack_chk_fail") {
            fail_off = Some(staging.len());
            let stub = chk_fail_stub();
            extend_bytes(&mut staging, stub.as_slice());
        }
        proof {
            assert((staging@, memset_off, chkstk_off, guard_off, fail_off) =~= spec_add_stubs(
                staging0,
                yv,
                j + 1,
            ));
        }
        j = j + 1;
    }
    // Find the text section and the target function.
    let mut text_idx: Option<usize> = None;
    proof {
        assert(sv.skip(0) =~= sv);
    }
    let mut t: usize = 0;
    while t < sections.len()
        invariant
            sv == sections_v(sections@),
            t <= sv.len(),
            (match text_idx {
                None => spec_find_text(sv) == (match spec_find_text(sv.skip(t as int)) {
                    Some(i) => Some(i + t),
                    None => None::<int>,
                }),
                Some(ti) => spec_find_text(sv) == Some(ti as int) && (ti as int) < sv.len(),
            }),
        decreases sv.len() - t,
    {
        if text_idx.is_none() {
            proof {
                assert(sv.skip(t as int)[0] == sv[t as int]);
                assert(sv.skip(t as int).drop_first() =~= sv.skip(t as int + 1));
            }
            if str_eq(sections[t].name.as_str(), ".text") {
                text_idx = Some(t);
            }
        }
        t = t + 1;
    }
    proof {
        if text_idx is None {
            assert(sv.skip(sv.len() as int) =~= Seq::<SectionV>::empty());
        }
        assert(sv.len() == sections@.len());
        assert(yv.len() == symbols@.len());
        assert((staging0, section_map@) == spec_layout(sv, sv.len() as int));
        assert((staging@, memset_off, chkstk_off, guard_off, fail_off) == spec_add_stubs(
            staging0,
            yv,
            yv.len() as int,
        ));
    }
    let ti = match text_idx {
        Some(ti) => ti,
        None => {
            proof {
                assert(spec_compose(sv, yv, relocs@, func_name@) is None);
            }
            return None;
        },
    };
    let mut func_idx: Option<usize> = None;
    proof {
        assert(yv.skip(0) =~= yv);
    }
    let mut f: usize = 0;
    while f < symbols.len()
        invariant
            yv == symbols_v(symbols@),
            f <= yv.len(),
            (match func_idx {
                None => spec_find_symbol(yv, func_name@) == (match spec_find_symbol(
                    yv.skip(f as int),
                    func_name@,
                ) {
                    Some(i) => Some(i + f),
                    None => None::<int>,
                }),
                Some(fi) => spec_find_symbol(yv, func_name@) == Some(fi as int) && (fi as int)
                    < yv.len(),
            }),
        decreases yv.len() - f,
    {
        if func_idx.is_none() {
            proof {
                assert(yv.skip(f as int)[0] == yv[f as int]);
                assert(yv.skip(f as int).drop_first() =~= yv.skip(f as int + 1));
            }
            if str_eq(symbols[f].name.as_str(), func_name) {
                func_idx = Some(f);
            }
        }
        f = f + 1;
    }
    proof {
        if func_idx is None {
            assert(yv.skip(yv.len() as int) =~= Seq::<SymbolV>::empty());
        }
    }
    let fi = match func_idx {
        Some(fi) => fi,
        None => {
            proof {
                assert(spec_compose(sv, yv, relocs@, func_name@) is None);
            }
            return None;
        },
    };
    let text_base = match lookup_base(&section_map, sections[ti].index) {
        Some(b) => b,
        None => {
            proof {
                assert(spec_lookup_base(section_map@, sv[ti as int].index) is None);
                assert(spec_compose(sv, yv, relocs@, func_name@) is None);
            }
            return None;
        },
    };
    if staging.len() > 8 * PAGE_SIZE {
        proof {
            assert(spec_compose(sv, yv, relocs@, func_name@) is None);
        }
        return None;
    }
    if text_base > 8 * PAGE_SIZE {
        proof {
            assert(spec_compose(sv, yv, relocs@, func_name@) is None);
        }
        return None;
    }
    let mut exec_page = ExecPage::new(8);
    proof {
        assert(yv[fi as int].address <= 0x0010_0000);
    }
    let func_offset = text_base + (symbols[fi].address as usize);
    exec_page.load_with_code(staging.as_slice(), func_offset);
    let page_len = 8 * PAGE_SIZE;
    let staged_sz: usize = staging.len();
    let ghost staged_len = staging@.len();
    let ghost init = exec_page.page@;
    proof {
        assert(init =~= staging@ + Seq::new((8 * PAGE_SIZE - staging@.len()) as nat, |i: int| 0u8));
        assert((text_base + yv[fi as int].address) as usize == func_offset);
        assert(spec_compose(sv, yv, relocs@, func_name@) == (match spec_apply_relocs(
            init,
            section_map@,
            yv,
            relocs@,
            relocs@.len() as int,
            text_base,
            memset_off,
            chkstk_off,
            guard_off,
            fail_off,
        ) {
            None => None::<(Seq<u8>, usize, usize)>,
            Some(p) => Some((p, func_offset, staged_sz)),
        }));
    }
    // Relocation pass over the text section.
    let mut ri: usize = 0;
    while ri < relocs.len()
        invariant
            records_bounded(sv, yv, relocs@),
            sv == sections_v(sections@),
            yv == symbols_v(symbols@),
            ri <= relocs@.len(),
            page_len == 8 * PAGE_SIZE,
            exec_page.page@.len() == page_len,
            text_base <= page_len,
            exec_page.func_offset == func_offset,
            exec_page.code_size == staged_len,
            exec_page.code_size <= page_len,
            Some(exec_page.page@) == spec_apply_relocs(
                init,
                section_map@,
                yv,
                relocs@,
                ri as int,
                text_base,
                memset_off,
                chkstk_off,
                guard_off,
                fail_off,
            ),
            spec_compose(sv, yv, relocs@, func_name@) == (match spec_apply_relocs(
                init,
                section_map@,
                yv,
                relocs@,
                relocs@.len() as int,
                text_base,
                memset_off,
                chkstk_off,
                guard_off,
                fail_off,
            ) {
                None => None::<(Seq<u8>, usize, usize)>,
                Some(p) => Some((p, func_offset, staged_sz)),
            }),
        decreases relocs@.len() - ri,
    {
        let reloc = relocs[ri];
        let ghost pbefore = exec_page.page@;
        let ok = apply_reloc(
            &mut exec_page,
            &section_map,
            symbols,
            reloc,
            text_base,
            memset_off,
            chkstk_off,
            guard_off,
            fail_off,
        );
        if !ok {
            proof {
                assert(spec_apply_relocs(
                    init,
                    section_map@,
                    yv,
                    relocs@,
                    ri + 1,
                    text_base,
                    memset_off,
                    chkstk_off,
                    guard_off,
                    fail_off,
                ) is None);
                lemma_relocs_none_absorbing(
                    init,
                    section_map@,
                    yv,
                    relocs@,
                    ri + 1,
                    relocs@.len() as int,
                    text_base,
                    memset_off,
                    chkstk_off,
                    guard_off,
                    fail_off,
                );
            }
            return None;
        }
        proof {
            assert(spec_apply_relocs(
                init,
                section_map@,
                yv,
                relocs@,
                ri + 1,
                text_base,
                memset_off,
                chkstk_off,
                guard_off,
                fail_off,
            ) == Some(exec_page.page@));
        }
        ri = ri + 1;
    }
    proof {
        assert(spec_compose(sv, yv, relocs@, func_name@) == Some(
            (exec_page.page@, func_offset, staged_sz),
        ));
        assert(exec_page.code_size == staged_sz);
    }
    Some(exec_page)
}

} // verus!

verus! {

/// The section records the `object` crate extracts from an object file, a
/// function of the file bytes alone; `None` when the file does not parse.
pub uninterp spec fn obj_sections_of(bin: Seq<u8>) -> Option<Seq<SectionV>>;

/// The symbol records the `object` crate extracts from an object file.
pub uninterp spec fn obj_symbols_of(bin: Seq<u8>) -> Option<Seq<SymbolV>>;

/// The text-section relocation records the `object` crate extracts from an
/// object file; `None` when the file does not parse or has no text section.
pub uninterp spec fn obj_text_relocs_of(bin: Seq<u8>) -> Option<Seq<RelocRec>>;

/// Relies on `object::File::parse` and `Object::sections`: each section's
/// index, name, size, alignment, and data, as plain records in file order,
/// determined by the file bytes alone.
#[verifier::external_body]
fn obj_section_records(bin_data: &[u8]) -> (r: Option<Vec<SectionRec>>)
    ensures
        match r {
            Some(v) => obj_sections_of(bin_data@) == Some(sections_v(v@)),
            None => obj_sections_of(bin_data@) is None,
        },
{
    let obj_file = object::File::parse(bin_data).ok()?;
    Some(
        obj_file.sections().map(
            |s| SectionRec {
                index: s.index().0,
                name: s.name().unwrap_or("").to_string(),
                size: s.size(),
                align: s.align(),
                data: s.data().unwrap_or(&[]).to_vec(),
            },
        ).collect(),
    )
}

/// Relies on `object::Object::symbols`: each symbol's name, address, and
/// section, as plain records in symbol-table order, determined by the file
/// bytes alone.
#[verifier::external_body]
fn obj_symbol_records(bin_data: &[u8]) -> (r: Option<Vec<SymbolRec>>)
    ensures
        match r {
            Some(v) => obj_symbols_of(bin_data@) == Some(symbols_v(v@)),
            None => obj_symbols_of(bin_data@) is None,
        },
{
    let obj_file = object::File::parse(bin_data).ok()?;
    Some(
        obj_file.symbols().map(
            |s| SymbolRec {
                name: s.name().unwrap_or("").to_string(),
                address: s.address(),
                section_index: s.section_index().map(|i| i.0),
            },
        ).collect(),
    )
}

/// Relies on `object::ObjectSection::relocations` on the `.text` section:
/// each relocation's site, kind, encoding, width, addend, and target, as
/// plain records.
#[verifier::external_type_specification]
#[verifier::external_body]
pub struct ExRelocation(object::Relocation);

/// Convert one relocation to a plain record; only callable from the reader
/// below, which is what takes the `object` crate on trust.
#[verifier::external_body]
fn reloc_record(addr: u64, reloc: &object::Relocation) -> (r: RelocRec) {
    RelocRec {
        addr,
        is_relative: reloc.kind() == object::RelocationKind::Relative,
        elf_code: match (reloc.flags(), reloc.kind()) {
            (object::RelocationFlags::Elf { r_type }, object::RelocationKind::Unknown) => Some(r_type.0),
            _ => None,
        },
        generic_encoding: reloc.encoding() == object::RelocationEncoding::Generic,
        aarch64_call_encoding: reloc.encoding() == object::RelocationEncoding::AArch64Call,
        size_bits: reloc.size(), addend: reloc.addend(),
        has_implicit_addend: reloc.has_implicit_addend(),
        target_symbol: match reloc.target() { object::RelocationTarget::Symbol(i) => Some(i.0), _ => None },
    }
}

/// Relies on `object::ObjectSection::relocations` on the `.text` section:
/// each relocation's site, kind, encoding, width, addend, and target, as
/// plain records, determined by the file bytes alone.
#[verifier::external_body]
fn obj_text_relocations(bin_data: &[u8]) -> (r: Option<Vec<RelocRec>>)
    ensures
        match r {
            Some(v) => obj_text_relocs_of(bin_data@) == Some(v@),
            None => obj_text_relocs_of(bin_data@) is None,
        },
{
    let obj_file = object::File::parse(bin_data).ok()?;
    let section = obj_file.section_by_name(".text")?;
    Some(section.relocations().map(|(addr, reloc)| reloc_record(addr, &reloc)).collect())
}

/// Whether the extracted records keep every offset computation in range.
pub fn check_records_bounded(
    sections: &Vec<SectionRec>,
    symbols: &Vec<SymbolRec>,
    relocs: &Vec<RelocRec>,
) -> (r: bool)
    ensures
        r == records_bounded(sections_v(sections@), symbols_v(symbols@), relocs@),
{
    let ghost sv = sections_v(sections@);
    let ghost yv = symbols_v(symbols@);
    if sections.len() > 64 || symbols.len() > 1024 {
        return false;
    }
    let mut i: usize = 0;
    while i < sections.len()
        invariant
            sv == sections_v(sections@),
            i <= sv.len(),
            forall|k: int|
                0 <= k < i ==> (#[trigger] sv[k]).data.len() <= 0x0010_0000 && sv[k].align <= 4096,
        decreases sv.len() - i,
    {
        if sections[i].data.len() > 0x0010_0000 || sections[i].align > 4096 {
            proof {
                assert(sv[i as int].data.len() > 0x0010_0000 || sv[i as int].align > 4096);
            }
            return false;
        }
        i = i + 1;
    }
    let mut j: usize = 0;
    while j < symbols.len()
        invariant
            yv == symbols_v(symbols@),
            j <= yv.len(),
            forall|k: int| 0 <= k < j ==> (#[trigger] yv[k]).address <= 0x0010_0000,
        decreases yv.len() - j,
    {
        if symbols[j].address > 0x0010_0000 {
            proof {
                assert(yv[j as int].address > 0x0010_0000);
            }
            return false;
        }
        j = j + 1;
    }
    let mut m: usize = 0;
    while m < relocs.len()
        invariant
            m <= relocs@.len(),
            forall|k: int|
                0 <= k < m ==> (#[trigger] relocs@[k]).addr <= 0x0010_0000 && -0x0010_0000
                    <= relocs@[k].addend <= 0x0010_0000 && relocs@[k].size_bits <= 64 && relocs@[
                    k
                ].size_bits % 8 == 0,
        decreases relocs@.len() - m,
    {
        let rl = relocs[m];
        if rl.addr > 0x0010_0000 || rl.addend < -0x0010_0000 || rl.addend > 0x0010_0000
            || rl.size_bits > 64 || rl.size_bits % 8 != 0 {
            return false;
        }
        m = m + 1;
    }
    true
}

/// The image owed for an object file: compose over the extracted records,
/// `None` when the file does not read as an object, when its records are out
/// of the bounds a well-behaved toolchain stays in, or when composition
/// refuses a relocation.
pub open spec fn spec_parse_obj(bin: Seq<u8>, func_name: Seq<char>) -> Option<
    (Seq<u8>, usize, usize),
> {
    match (obj_sections_of(bin), obj_symbols_of(bin), obj_text_relocs_of(bin)) {
        (Some(sv), Some(yv), Some(rv)) => if records_bounded(sv, yv, rv) {
            spec_compose(sv, yv, rv, func_name)
        } else {
            None
        },
        _ => None,
    }
}

/// Parse a compiler's object output and compose a callable image for the
/// named function.  The object file is read through the `object` crate; the
/// layout, stub insertion, and relocation arithmetic are this crate's own and
/// happen in `compose_image`.  `None` on anything we refuse to guess at; the
/// embedding dumps the object for inspection in that case.
pub fn parse_obj_file(bin_data: &[u8], func_name: &str) -> (r: Option<ExecPage>)
    ensures
        match r {
            Some(p) => spec_parse_obj(bin_data@, func_name@) == Some(
                (p.page@, p.func_offset, p.code_size),
            ),
            None => spec_parse_obj(bin_data@, func_name@) is None,
        },
        r matches Some(p) ==> p.page@.len() == 8 * PAGE_SIZE && p.code_size <= 8 * PAGE_SIZE,
{
    let sections = match obj_section_records(bin_data) {
        Some(s) => s,
        None => {
            return None;
        },
    };
    let symbols = match obj_symbol_records(bin_data) {
        Some(s) => s,
        None => {
            return None;
        },
    };
    let relocs = match obj_text_relocations(bin_data) {
        Some(s) => s,
        None => {
            return None;
        },
    };
    if !check_records_bounded(&sections, &symbols, &relocs) {
        return None;
    }
    compose_image(&sections, &symbols, &relocs, func_name)
}

} // verus!
