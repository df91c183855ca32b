//! The composed executable image: the bytes the loader lays out and patches,
//! the target function's offset, and the loaded size.  The embedding copies
//! these bytes into an actual writable-executable allocation before calling
//! the function; every patch is a plain byte or bit transformation and is
//! specified exactly.
use vstd::prelude::*;

use vstd::bytes::{spec_u32_to_le_bytes, spec_u32_from_le_bytes, spec_u64_to_le_bytes,
    spec_u64_from_le_bytes, u32_from_le_bytes, u32_to_le_bytes, u64_to_le_bytes,
    u64_from_le_bytes, lemma_auto_spec_u32_to_from_le_bytes,
    lemma_auto_spec_u64_to_from_le_bytes};

verus! {

/// Bytes per page of the image.
pub const PAGE_SIZE: usize = 4096;

/// The `width`-byte little-endian integer stored at `off`, zero-extended to
/// 64 bits.
pub open spec fn spec_site_value(page: Seq<u8>, off: int, width: int) -> u64 {
    spec_u64_from_le_bytes(
        page.subrange(off, off + width) + Seq::new((8 - width) as nat, |i: int| 0u8),
    )
}

/// An executable image under composition.
#[derive(Debug)]
pub struct ExecPage {
    /// The image bytes; the allocation the embedding makes for them is
    /// page-aligned and writable-executable.
    pub page: Vec<u8>,
    /// Where the target function starts inside the image.
    pub func_offset: usize,
    /// How many bytes of the image are loaded code.
    pub code_size: usize,
}

impl ExecPage {
    /// An empty image of `num_pages` zeroed pages.
    pub fn new(num_pages: usize) -> (r: ExecPage)
        requires
            num_pages * PAGE_SIZE <= usize::MAX,
        ensures
            r.page@.len() == num_pages * PAGE_SIZE,
            forall|i: int| 0 <= i < r.page@.len() ==> r.page@[i] == 0u8,
            r.func_offset == 0,
            r.code_size == 0,
    {
        let total = num_pages * PAGE_SIZE;
        let mut page: Vec<u8> = Vec::new();
        let mut k: usize = 0;
        while k < total
            invariant
                k <= total,
                page@.len() == k as int,
                forall|i: int| 0 <= i < k ==> page@[i] == 0u8,
            decreases total - k,
        {
            page.push(0u8);
            k = k + 1;
        }
        ExecPage { page, func_offset: 0, code_size: 0 }
    }

    /// Copy the composed instructions to the front of the image and record
    /// the function's offset.
    pub fn load_with_code(&mut self, instructions: &[u8], func_offset: usize)
        requires
            instructions@.len() <= old(self).page@.len(),
        ensures
            final(self).page@.len() == old(self).page@.len(),
            forall|i: int|
                0 <= i < instructions@.len() ==> final(self).page@[i] == instructions@[i],
            forall|i: int|
                instructions@.len() <= i < old(self).page@.len() ==> final(self).page@[i] == old(
                    self,
                ).page@[i],
            final(self).func_offset == func_offset,
            final(self).code_size == instructions@.len(),
    {
        let num_bytes = instructions.len();
        let mut k: usize = 0;
        while k < num_bytes
            invariant
                num_bytes == instructions@.len(),
                num_bytes <= self.page@.len(),
                self.page@.len() == old(self).page@.len(),
                k <= num_bytes,
                forall|i: int| 0 <= i < k ==> self.page@[i] == instructions@[i],
                forall|i: int|
                    k <= i < old(self).page@.len() ==> self.page@[i] == old(self).page@[i],
                self.func_offset == old(self).func_offset,
                self.code_size == old(self).code_size,
            decreases num_bytes - k,
        {
            let b = instructions[k];
            self.page[k] = b;
            k = k + 1;
        }
        self.func_offset = func_offset;
        self.code_size = num_bytes;
    }

    /// Read `width` bytes at `off` little-endian, zero-extended to 64 bits.
    fn read_le_zext(&self, off: usize, width: usize) -> (r: u64)
        requires
            width <= 8,
            off + width <= self.page@.len(),
        ensures
            r == spec_site_value(self.page@, off as int, width as int),
            spec_u64_to_le_bytes(r).subrange(0, width as int) =~= self.page@.subrange(
                off as int,
                off + width,
            ),
    {
        proof {
            vstd::std_specs::vec::axiom_spec_len(&self.page);
        }
        let mut buf: Vec<u8> = Vec::new();
        let mut k: usize = 0;
        while k < width
            invariant
                width <= 8,
                off + width <= self.page@.len(),
                self.page@.len() <= usize::MAX,
                k <= width,
                buf@.len() == k as int,
                forall|i: int| 0 <= i < k ==> buf@[i] == self.page@[off + i],
            decreases width - k,
        {
            buf.push(self.page[off + k]);
            k = k + 1;
        }
        while buf.len() < 8
            invariant
                buf@.len() <= 8,
                buf@.len() >= width,
                forall|i: int| 0 <= i < width ==> buf@[i] == self.page@[off + i],
                forall|i: int| width <= i < buf@.len() ==> buf@[i] == 0u8,
            decreases 8 - buf@.len(),
        {
            buf.push(0u8);
        }
        let r = u64_from_le_bytes(buf.as_slice());
        proof {
            lemma_auto_spec_u64_to_from_le_bytes();
            assert(buf@ =~= self.page@.subrange(off as int, off + width) + Seq::new(
                (8 - width) as nat,
                |i: int| 0u8,
            ));
            assert(spec_u64_to_le_bytes(r) == buf@);
        }
        r
    }

    /// Write the low `width` bytes of `value` at `off`, little-endian.
    fn write_le(&mut self, off: usize, width: usize, value: u64)
        requires
            width <= 8,
            off + width <= old(self).page@.len(),
        ensures
            final(self).page@.len() == old(self).page@.len(),
            final(self).page@ =~= old(self).page@.subrange(0, off as int) + spec_u64_to_le_bytes(
                value,
            ).subrange(0, width as int) + old(self).page@.subrange(
                off + width,
                old(self).page@.len() as int,
            ),
            final(self).func_offset == old(self).func_offset,
            final(self).code_size == old(self).code_size,
    {
        proof {
            vstd::std_specs::vec::axiom_spec_len(&self.page);
        }
        let bytes = u64_to_le_bytes(value);
        let mut k: usize = 0;
        while k < width
            invariant
                width <= 8,
                off + width <= self.page@.len(),
                self.page@.len() <= usize::MAX,
                self.page@.len() == old(self).page@.len(),
                bytes@ == spec_u64_to_le_bytes(value),
                bytes@.len() == 8,
                k <= width,
                forall|i: int| 0 <= i < k ==> self.page@[off + i] == bytes@[i],
                forall|i: int|
                    0 <= i < old(self).page@.len() && !(off <= i < off + k) ==> self.page@[i]
                        == old(self).page@[i],
                self.func_offset == old(self).func_offset,
                self.code_size == old(self).code_size,
            decreases width - k,
        {
            let b = bytes[k];
            self.page[off + k] = b;
            k = k + 1;
        }
    }

    /// Patch a relocation site: write `value`, plus the site's current bytes
    /// when the relocation carries an implicit addend, as a little-endian
    /// integer of the relocation's width.
    pub fn fix_up_redirect(
        &mut self,
        write_offset: usize,
        write_len_bits: usize,
        value: i64,
        implicit_addend: bool,
    )
        requires
            write_len_bits % 8 == 0,
            write_len_bits <= 64,
            write_offset + write_len_bits / 8 <= old(self).page@.len(),
        ensures
            final(self).page@.len() == old(self).page@.len(),
            ({
                let width = (write_len_bits / 8) as int;
                let cur = if implicit_addend {
                    spec_site_value(old(self).page@, write_offset as int, width)
                } else {
                    0u64
                };
                final(self).page@ =~= old(self).page@.subrange(0, write_offset as int)
                    + spec_u64_to_le_bytes((value as u64).wrapping_add(cur)).subrange(0, width)
                    + old(self).page@.subrange(
                    write_offset + width,
                    old(self).page@.len() as int,
                )
            }),
            final(self).func_offset == old(self).func_offset,
            final(self).code_size == old(self).code_size,
    {
        let write_len_bytes = write_len_bits / 8;
        let current = self.read_le_zext(write_offset, write_len_bytes);
        let addend = if implicit_addend {
            current
        } else {
            0u64
        };
        let new_value = (value as u64).wrapping_add(addend);
        self.write_le(write_offset, write_len_bytes, new_value);
    }

    /// Encode a PC-relative page delta into an `adrp` instruction: the low
    /// two bits of the immediate go to bits 29..31, the remaining nineteen
    /// bits to bits 5..24.
    pub fn fix_up_arm_adrp_redirect(&mut self, write_offset: usize, value: i32)
        requires
            write_offset + 4 <= old(self).page@.len(),
        ensures
            final(self).page@.len() == old(self).page@.len(),
            ({
                let cur = spec_u32_from_le_bytes(
                    old(self).page@.subrange(write_offset as int, write_offset + 4),
                );
                let v = value as u32;
                let imm_lo = v & 0x3;
                let imm_hi = (v >> 2) & 0x7FFFF;
                final(self).page@ =~= old(self).page@.subrange(0, write_offset as int)
                    + spec_u32_to_le_bytes(cur | (imm_lo << 29) | (imm_hi << 5)) + old(
                    self,
                ).page@.subrange(write_offset + 4, old(self).page@.len() as int)
            }),
            final(self).func_offset == old(self).func_offset,
            final(self).code_size == old(self).code_size,
    {
        let current = self.read_u32_at(write_offset);
        let v = value as u32;
        let imm_lo = v & 0x3;
        let imm_hi = (v >> 2u32) & 0x7FFFF;
        let new_value = current | (imm_lo << 29u32) | (imm_hi << 5u32);
        self.write_u32_at(write_offset, new_value);
    }

    /// Encode a scaled page offset into a load instruction's immediate field.
    pub fn fix_up_arm_ldr_offset_redirect(&mut self, write_offset: usize, value: i32, shift: u32)
        requires
            write_offset + 4 <= old(self).page@.len(),
            value >= 0,
            shift < 32,
        ensures
            final(self).page@.len() == old(self).page@.len(),
            ({
                let cur = spec_u32_from_le_bytes(
                    old(self).page@.subrange(write_offset as int, write_offset + 4),
                );
                final(self).page@ =~= old(self).page@.subrange(0, write_offset as int)
                    + spec_u32_to_le_bytes(cur | ((value as u32) << shift)) + old(
                    self,
                ).page@.subrange(write_offset + 4, old(self).page@.len() as int)
            }),
            final(self).func_offset == old(self).func_offset,
            final(self).code_size == old(self).code_size,
    {
        let current = self.read_u32_at(write_offset);
        let new_value = current | ((value as u32) << shift);
        self.write_u32_at(write_offset, new_value);
    }

    /// Encode a page offset into an `add` immediate field (bits 10..22).
    pub fn fix_up_arm_add_immediate(&mut self, write_offset: usize, value: i32)
        requires
            write_offset + 4 <= old(self).page@.len(),
            value >= 0,
        ensures
            final(self).page@.len() == old(self).page@.len(),
            ({
                let cur = spec_u32_from_le_bytes(
                    old(self).page@.subrange(write_offset as int, write_offset + 4),
                );
                final(self).page@ =~= old(self).page@.subrange(0, write_offset as int)
                    + spec_u32_to_le_bytes(cur | ((value as u32) << 10)) + old(self).page@.subrange(
                    write_offset + 4,
                    old(self).page@.len() as int,
                )
            }),
            final(self).func_offset == old(self).func_offset,
            final(self).code_size == old(self).code_size,
    {
        let current = self.read_u32_at(write_offset);
        let new_value = current | ((value as u32) << 10u32);
        self.write_u32_at(write_offset, new_value);
    }

    /// Read the 32-bit little-endian word at `off`.
    pub fn read_u32_at(&self, off: usize) -> (r: u32)
        requires
            off + 4 <= self.page@.len(),
        ensures
            r == spec_u32_from_le_bytes(self.page@.subrange(off as int, off + 4)),
    {
        proof {
            vstd::std_specs::vec::axiom_spec_len(&self.page);
        }
        let mut buf: Vec<u8> = Vec::new();
        buf.push(self.page[off]);
        buf.push(self.page[off + 1]);
        buf.push(self.page[off + 2]);
        buf.push(self.page[off + 3]);
        proof {
            assert(buf@ =~= self.page@.subrange(off as int, off + 4));
        }
        u32_from_le_bytes(buf.as_slice())
    }

    /// Write the 32-bit little-endian word at `off`.
    pub fn write_u32_at(&mut self, off: usize, value: u32)
        requires
            off + 4 <= old(self).page@.len(),
        ensures
            final(self).page@.len() == old(self).page@.len(),
            final(self).page@ =~= old(self).page@.subrange(0, off as int) + spec_u32_to_le_bytes(
                value,
            ) + old(self).page@.subrange(off + 4, old(self).page@.len() as int),
            final(self).func_offset == old(self).func_offset,
            final(self).code_size == old(self).code_size,
    {
        proof {
            vstd::std_specs::vec::axiom_spec_len(&self.page);
        }
        let bytes = u32_to_le_bytes(value);
        let b0 = bytes[0];
        let b1 = bytes[1];
        let b2 = bytes[2];
        let b3 = bytes[3];
        self.page[off] = b0;
        proof {
            assert(self.page@.len() == old(self).page@.len());
        }
        self.page[off + 1] = b1;
        proof {
            assert(self.page@.len() == old(self).page@.len());
        }
        self.page[off + 2] = b2;
        proof {
            assert(self.page@.len() == old(self).page@.len());
        }
        self.page[off + 3] = b3;
        proof {
            assert(spec_u32_to_le_bytes(value).len() == 4);
            assert(final(self).page@ =~= old(self).page@.subrange(0, off as int)
                + spec_u32_to_le_bytes(value) + old(self).page@.subrange(
                off + 4,
                old(self).page@.len() as int,
            ));
        }
    }

    /// The loaded code bytes.
    pub fn get_bytes(&self) -> (r: &[u8])
        requires
            self.code_size <= self.page@.len(),
        ensures
            r@ == self.page@.subrange(0, self.code_size as int),
    {
        vstd::slice::slice_subrange(self.page.as_slice(), 0, self.code_size)
    }

    pub fn get_func_offset(&self) -> (r: usize)
        ensures
            r == self.func_offset,
    {
        self.func_offset
    }
}

} // verus!
