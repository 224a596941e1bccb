//! Plans for loading an ELF program: which pages each loadable segment
//! occupies, what part of the file goes where, with which permissions, and
//! where the user stack and the entry are.
use vstd::prelude::*;
use xmas_elf::header::{HeaderPt2, Machine};
use xmas_elf::ElfFile;
use xmas_elf::program::Type as ProgramType;

verus! {

broadcast use vstd::array::group_array_axioms;

/// The header fields of a 64-bit ELF file that loading reads.
#[derive(Clone, Copy, PartialEq, Eq, Structural, Debug)]
pub struct ElfHeaderSummary {
    /// The object file type; an executable is type [`ET_EXEC`].
    pub e_type: u16,
    /// The file is for RISC-V.
    pub riscv: bool,
    /// The entry address.
    pub entry: u64,
}

/// The fields of a program header that loading reads.
#[derive(Clone, Copy, PartialEq, Eq, Structural, Debug)]
pub struct ProgramSummary {
    /// The segment is loadable.
    pub load: bool,
    /// Offset of the segment in the file.
    pub offset: u64,
    /// Size of the segment in the file.
    pub file_size: u64,
    /// Virtual address of the segment.
    pub virtual_addr: u64,
    /// Size of the segment in memory.
    pub mem_size: u64,
    /// Permission bits: execute `1`, write `2`, read `4`.
    pub flags: u32,
}

/// What loading reads of an ELF file: the 64-bit header, absent for a
/// 32-bit file, and the program headers in file order.
pub struct ElfSummary {
    pub header: Option<ElfHeaderSummary>,
    pub programs: Vec<ProgramSummary>,
}

/// Abstract view of an [`ElfSummary`].
pub struct ElfSummaryView {
    pub header: Option<ElfHeaderSummary>,
    pub programs: Seq<ProgramSummary>,
}

impl View for ElfSummary {
    type V = ElfSummaryView;

    open spec fn view(&self) -> ElfSummaryView {
        ElfSummaryView { header: self.header, programs: self.programs@ }
    }
}

/// What the `xmas-elf` crate reads from `input`: `None` when
/// `ElfFile::new` refuses it, else its header and program headers.
pub uninterp spec fn elf_decoded(input: Seq<u8>) -> Option<ElfSummaryView>;

/// The unsigned number stored little-endian in the `n` bytes of `s` from
/// index `at`.
pub open spec fn spec_le(s: Seq<u8>, at: int, n: nat) -> nat
    decreases n,
{
    if n == 0 {
        0
    } else {
        s[at] as nat + 256 * spec_le(s, at + 1, (n - 1) as nat)
    }
}

/// Where the program headers of an ELF file lie, as its header says: the
/// byte offset of the first, the size of each and their number, with the
/// size and alignment that a program header of the file's class needs.
/// `None` when `xmas-elf` refuses the header: too short, no magic number,
/// or a class other than 32-bit (`1`) or 64-bit (`2`).
pub open spec fn program_table(s: Seq<u8>) -> Option<(nat, nat, nat, nat, nat)> {
    if s.len() < 16 || s[0] != 0x7f || s[1] != 0x45 || s[2] != 0x4c || s[3] != 0x46 {
        None
    } else if s[4] == 2 && s.len() >= 64 {
        Some((spec_le(s, 32, 8), spec_le(s, 54, 2), spec_le(s, 56, 2), 56nat, 8nat))
    } else if s[4] == 1 && s.len() >= 52 {
        Some((spec_le(s, 28, 4), spec_le(s, 42, 2), spec_le(s, 44, 2), 32nat, 4nat))
    } else {
        None
    }
}

/// Whether every program header that `xmas-elf` reads from `s` lies inside
/// it, is large enough and is aligned for its class: the crate panics on a
/// file whose header promises program headers that are not there.
pub open spec fn program_headers_in_bounds(s: Seq<u8>) -> bool {
    match program_table(s) {
        None => true,
        Some((offset, entry_size, count, need, align)) => {
            ||| offset == 0
            ||| entry_size == 0
            ||| count == 0
            ||| {
                &&& offset + count * entry_size <= s.len()
                &&& entry_size >= need
                &&& offset % align == 0
                &&& (count == 1 || entry_size % align == 0)
            }
        },
    }
}

/// The header fields loading reads.
fn header_summary(e_type: u16, riscv: bool, entry: u64) -> (r: ElfHeaderSummary)
    ensures
        r == (ElfHeaderSummary { e_type, riscv, entry }),
{
    ElfHeaderSummary { e_type, riscv, entry }
}

/// The program header fields loading reads.
fn program_summary(load: bool, offset: u64, file_size: u64, virtual_addr: u64, mem_size: u64, flags: u32) -> (r:
    ProgramSummary)
    ensures
        r == (ProgramSummary { load, offset, file_size, virtual_addr, mem_size, flags }),
{
    ProgramSummary { load, offset, file_size, virtual_addr, mem_size, flags }
}

/// Reads an ELF file with `xmas_elf::ElfFile::new` and its program header
/// iterator; the result is a function of the input bytes alone. The crate
/// reads its header structures in place and asserts that they are aligned,
/// so the bytes are first copied to a buffer that starts at an 8-byte
/// boundary (one to eight bytes in): the capacity reserved up front keeps the
/// copy from moving. The crate reads the fields in the machine's byte order,
/// little-endian on every machine this library is built for.
#[verifier::external_body]
fn decode_elf(input: &[u8]) -> (r: Option<ElfSummary>)
    requires
        input@.len() + 8 <= isize::MAX,
        program_headers_in_bounds(input@),
    ensures
        r matches Some(s) ==> elf_decoded(input@) == Some(s@),
        r is None ==> elf_decoded(input@) is None,
{
    let mut buf = Vec::with_capacity(input.len() + 8);
    let pad = 8 - buf.as_ptr() as usize % 8;
    buf.resize(pad, 0);
    buf.extend_from_slice(input);
    let elf = ElfFile::new(&buf[pad..]).ok()?;
    let header = match elf.header.pt2 {
        HeaderPt2::Header64(h) => Some(header_summary(h.type_.0, h.machine.as_machine() == Machine::RISC_V, h.entry_point)),
        _ => None,
    };
    let programs = elf.program_iter().map(|p|
        program_summary(p.get_type() == Ok(ProgramType::Load), p.offset(), p.file_size(), p.virtual_addr(), p.mem_size(), p.flags().0)
    ).collect();
    Some(ElfSummary { header, programs })
}

/// `256` to the power `k`.
pub open spec fn pow256(k: nat) -> nat
    decreases k,
{
    if k == 0 {
        1
    } else {
        256 * pow256((k - 1) as nat)
    }
}

proof fn lemma_le_bound(s: Seq<u8>, at: int, n: nat)
    requires
        0 <= at,
        at + n <= s.len(),
    ensures
        spec_le(s, at, n) < pow256(n),
    decreases n,
{
    if n > 0 {
        lemma_le_bound(s, at + 1, (n - 1) as nat);
    }
}

proof fn lemma_pow256_mono(a: nat, b: nat)
    requires
        a <= b,
    ensures
        pow256(a) <= pow256(b),
    decreases b,
{
    if a < b {
        lemma_pow256_mono(a, (b - 1) as nat);
    }
}

/// The unsigned number stored little-endian in `input[at..at + n]`.
fn read_le(input: &[u8], at: usize, n: usize) -> (r: u64)
    requires
        n <= 8,
        at + n <= input@.len(),
    ensures
        r == spec_le(input@, at as int, n as nat),
{
    proof {
        reveal_with_fuel(pow256, 9);
        lemma_pow256_mono(n as nat, 8);
    }
    let mut v: u64 = 0;
    let mut i: usize = n;
    while i > 0
        invariant
            i <= n <= 8,
            at + n <= input.len(),
            pow256(n as nat) <= 0x1_0000_0000_0000_0000,
            v == spec_le(input@, at + i, (n - i) as nat),
        decreases i,
    {
        i -= 1;
        proof {
            lemma_le_bound(input@, at + i + 1, (n - i - 1) as nat);
            lemma_pow256_mono((n - i) as nat, n as nat);
        }
        v = v * 256 + input[at + i] as u64;
    }
    v
}

/// Whether every program header that `xmas-elf` reads from `input` lies
/// inside it, is large enough and is aligned for the file's class.
pub fn program_headers_fit(input: &[u8]) -> (r: bool)
    ensures
        r == program_headers_in_bounds(input@),
{
    let len = input.len();
    if len < 16 || input[0] != 0x7f || input[1] != 0x45 || input[2] != 0x4c || input[3] != 0x46 {
        return true;
    }
    let (offset, entry_size, count, need, align) = if input[4] == 2 && len >= 64 {
        (read_le(input, 32, 8), read_le(input, 54, 2), read_le(input, 56, 2), 56u64, 8u64)
    } else if input[4] == 1 && len >= 52 {
        (read_le(input, 28, 4), read_le(input, 42, 2), read_le(input, 44, 2), 32u64, 4u64)
    } else {
        return true;
    };
    proof {
        reveal_with_fuel(pow256, 3);
        lemma_le_bound(input@, if input[4] == 2 { 54int } else { 42int }, 2);
        lemma_le_bound(input@, if input[4] == 2 { 56int } else { 44int }, 2);
    }
    if offset == 0 || entry_size == 0 || count == 0 {
        return true;
    }
    if offset > len as u64 {
        proof {
            assert(count * entry_size >= 1) by (nonlinear_arith)
                requires count >= 1, entry_size >= 1;
        }
        return false;
    }
    assert(count * entry_size <= 0xffff * 0xffff) by (nonlinear_arith)
        requires count <= 0xffff, entry_size <= 0xffff;
    let table = count * entry_size;
    table <= len as u64 - offset && entry_size >= need && offset % align == 0 && (count == 1
        || entry_size % align == 0)
}

/// The ELF object file type of an executable.
pub const ET_EXEC: u16 = 2;

/// Bits of a page offset.
pub const PAGE_BITS: u64 = 12;
/// Bytes in a page.
pub const PAGE_SIZE: u64 = 0x1000;
/// Mask of a page offset.
pub const PAGE_MASK: u64 = 0xfff;
/// Mask of the significant bits of a virtual address under Sv39.
pub const VADDR_MASK: u64 = 0x7f_ffff_ffff;
/// First page of the user stack.
pub const USER_STACK_FIRST_PAGE: u64 = 0x3ff_fffe;
/// Page after the user stack.
pub const USER_STACK_END_PAGE: u64 = 0x400_0000;
/// Initial stack pointer of a user thread.
pub const USER_STACK_TOP: u64 = 0x40_0000_0000;
/// `satp` mode bits of Sv39.
pub const SATP_SV39: u64 = 0x8000_0000_0000_0000;

/// ASCII `U`.
pub const LETTER_U: u8 = 0x55;
/// ASCII `X`.
pub const LETTER_X: u8 = 0x58;
/// ASCII `W`.
pub const LETTER_W: u8 = 0x57;
/// ASCII `R`.
pub const LETTER_R: u8 = 0x52;
/// ASCII `V`.
pub const LETTER_V: u8 = 0x56;
/// ASCII `_`.
pub const BLANK: u8 = 0x5f;

/// Permission bit of executable segments.
pub const SEGMENT_X: u32 = 1;
/// Permission bit of writable segments.
pub const SEGMENT_W: u32 = 2;
/// Permission bit of readable segments.
pub const SEGMENT_R: u32 = 4;

/// The page holding address `addr` under Sv39.
pub open spec fn page_floor(addr: u64) -> u64 {
    ((addr % 0x80_0000_0000) / 0x1000) as u64
}

/// The first page after address `addr` and all pages below it under Sv39.
pub open spec fn page_ceil(addr: u64) -> u64 {
    ((addr % 0x80_0000_0000 + 0xfff) / 0x1000) as u64
}

/// How one loadable segment is mapped.
#[derive(Clone, Copy, Debug)]
pub struct SegmentMap {
    /// First page of the segment.
    pub first_page: u64,
    /// Page after the segment.
    pub end_page: u64,
    /// Offset in the file of the bytes to copy.
    pub file_offset: u64,
    /// How many bytes to copy.
    pub file_len: u64,
    /// Where in the first page the copied bytes start; the rest is zeroed.
    pub page_offset: u64,
    /// Permissions as text: `U`, then `X`, `W`, `R` or `_` each, then `V`.
    pub flags: [u8; 5],
}

/// How to load a program: its entry and its segments; every program also
/// gets the user stack between [`USER_STACK_FIRST_PAGE`] and
/// [`USER_STACK_END_PAGE`], mapped `U_WRV`, with the stack pointer at
/// [`USER_STACK_TOP`].
pub struct LoadPlan {
    pub entry: u64,
    pub segments: Vec<SegmentMap>,
}

/// The Sv39 flag bit a letter of a permission text stands for, ignoring
/// ASCII case: `V`, `R`, `W`, `X`, `U`, `G`, `A`, `D` for bits 0 to 7; any
/// other character stands for none.
pub open spec fn letter_bit(c: u8) -> u64 {
    let u = if 0x61 <= c && c <= 0x7a { (c - 0x20) as u8 } else { c };
    if u == 0x56 {
        1
    } else if u == 0x52 {
        2
    } else if u == 0x57 {
        4
    } else if u == 0x58 {
        8
    } else if u == 0x55 {
        16
    } else if u == 0x47 {
        32
    } else if u == 0x41 {
        64
    } else if u == 0x44 {
        128
    } else {
        0
    }
}

/// The flag bits a permission text such as `U_WRV` stands for: the bits of
/// its letters together.
pub open spec fn spec_flag_bits(text: Seq<u8>) -> u64
    decreases text.len(),
{
    if text.len() == 0 {
        0
    } else {
        spec_flag_bits(text.drop_last()) | letter_bit(text.last())
    }
}

/// The flag bits of one letter.
fn letter_flag(c: u8) -> (r: u64)
    ensures
        r == letter_bit(c),
{
    let u = if 0x61 <= c && c <= 0x7a { c - 0x20 } else { c };
    if u == 0x56 {
        1
    } else if u == 0x52 {
        2
    } else if u == 0x57 {
        4
    } else if u == 0x58 {
        8
    } else if u == 0x55 {
        16
    } else if u == 0x47 {
        32
    } else if u == 0x41 {
        64
    } else if u == 0x44 {
        128
    } else {
        0
    }
}

/// The flag bits a permission text stands for, as the page-table crate
/// reads such a text for RISC-V.
pub fn flag_bits(text: &[u8]) -> (r: u64)
    ensures
        r == spec_flag_bits(text@),
{
    let mut bits: u64 = 0;
    let mut i: usize = 0;
    while i < text.len()
        invariant
            i <= text@.len(),
            bits == spec_flag_bits(text@.take(i as int)),
        decreases text@.len() - i,
    {
        assert(text@.take(i + 1).drop_last() =~= text@.take(i as int));
        bits = bits | letter_flag(text[i]);
        i += 1;
    }
    assert(text@.take(i as int) =~= text@);
    bits
}

/// Whether a segment can be loaded from a file of `input_len` bytes: its
/// end address is representable, its file bytes lie in the file, the file
/// offset and the address agree within a page, and the pages spanned hold the
/// file bytes after the in-page offset.
pub open spec fn segment_loadable(p: ProgramSummary, input_len: nat) -> bool {
    &&& p.virtual_addr + p.mem_size <= u64::MAX
    &&& p.offset + p.file_size <= input_len
    &&& p.offset % 0x1000 == p.virtual_addr % 0x1000
    &&& page_floor(p.virtual_addr) <= page_ceil((p.virtual_addr + p.mem_size) as u64)
    &&& (page_ceil((p.virtual_addr + p.mem_size) as u64) - page_floor(p.virtual_addr)) * 0x1000
        >= p.file_size + p.virtual_addr % 0x1000
}

/// How a loadable segment is mapped.
pub open spec fn segment_of(p: ProgramSummary) -> SegmentMap {
    SegmentMap {
        first_page: page_floor(p.virtual_addr),
        end_page: page_ceil((p.virtual_addr + p.mem_size) as u64),
        file_offset: p.offset,
        file_len: p.file_size,
        page_offset: p.virtual_addr % 0x1000,
        flags: [
            LETTER_U,
            if p.flags & SEGMENT_X == SEGMENT_X { LETTER_X } else { BLANK },
            if p.flags & SEGMENT_W == SEGMENT_W { LETTER_W } else { BLANK },
            if p.flags & SEGMENT_R == SEGMENT_R { LETTER_R } else { BLANK },
            LETTER_V,
        ],
    }
}

/// The segments mapped for the program headers `ps`: one per loadable
/// header, in order.
pub open spec fn planned_segments(ps: Seq<ProgramSummary>) -> Seq<SegmentMap>
    decreases ps.len(),
{
    if ps.len() == 0 {
        Seq::empty()
    } else {
        let rest = planned_segments(ps.drop_last());
        if ps.last().load {
            rest.push(segment_of(ps.last()))
        } else {
            rest
        }
    }
}

/// Every loadable program header can be loaded.
pub open spec fn all_loadable(ps: Seq<ProgramSummary>, input_len: nat) -> bool {
    forall|i: int| 0 <= i < ps.len() && (#[trigger] ps[i]).load ==> segment_loadable(ps[i], input_len)
}

/// Whether a file with this header is a RISC-V executable.
pub open spec fn runnable(header: Option<ElfHeaderSummary>) -> bool {
    header matches Some(h) && h.e_type == ET_EXEC && h.riscv
}

proof fn lemma_page_bits(addr: u64)
    ensures
        (addr & VADDR_MASK) >> 12u64 == page_floor(addr),
        addr & VADDR_MASK <= VADDR_MASK,
        (((addr & VADDR_MASK) + 0xfff) as u64) >> 12u64 == page_ceil(addr),
        addr & PAGE_MASK == addr % 0x1000,
{
    assert((addr & 0x7f_ffff_ffffu64) == addr % 0x80_0000_0000) by (bit_vector);
    assert((addr & 0x7f_ffff_ffffu64) <= 0x7f_ffff_ffffu64) by (bit_vector);
    assert(addr & 0xfffu64 == addr % 0x1000) by (bit_vector);
    let m = addr & 0x7f_ffff_ffffu64;
    assert(m >> 12u64 == m / 0x1000) by (bit_vector);
    assert(m <= 0x7f_ffff_ffffu64 ==> ((m + 0xfff) as u64) >> 12u64 == (m + 0xfff) / 0x1000)
        by (bit_vector);
}

/// The mapping of one loadable segment.
fn map_segment(p: &ProgramSummary) -> (r: SegmentMap)
    requires
        p.virtual_addr + p.mem_size <= u64::MAX,
    ensures
        r == segment_of(*p),
{
    let off_mem = p.virtual_addr;
    let end_mem = off_mem + p.mem_size;
    proof {
        lemma_page_bits(off_mem);
        lemma_page_bits(end_mem);
    }
    let mut flags: [u8; 5] = [LETTER_U, BLANK, BLANK, BLANK, LETTER_V];
    if p.flags & SEGMENT_X == SEGMENT_X {
        flags[1] = LETTER_X;
    }
    if p.flags & SEGMENT_W == SEGMENT_W {
        flags[2] = LETTER_W;
    }
    if p.flags & SEGMENT_R == SEGMENT_R {
        flags[3] = LETTER_R;
    }
    let r = SegmentMap {
        first_page: (off_mem & VADDR_MASK) >> PAGE_BITS,
        end_page: ((end_mem & VADDR_MASK) + PAGE_MASK) >> PAGE_BITS,
        file_offset: p.offset,
        file_len: p.file_size,
        page_offset: off_mem & PAGE_MASK,
        flags,
    };
    let ghost sm = segment_of(*p);
    assert(r.first_page == sm.first_page);
    assert(r.end_page == sm.end_page);
    assert(r.page_offset == sm.page_offset);
    assert(r.flags@ =~= sm.flags@);
    assert(r.flags == sm.flags);
    r
}

/// The plan to load an executable whose file, of `input_len` bytes, was read
/// as `summary`: nothing unless it is a 64-bit RISC-V executable, else its
/// entry and one mapping per loadable segment in file order.
pub fn load_plan(summary: &ElfSummary, input_len: u64) -> (r: Option<LoadPlan>)
    requires
        all_loadable(summary@.programs, input_len as nat),
    ensures
        !runnable(summary@.header) ==> r is None,
        runnable(summary@.header) ==> (r matches Some(plan) && plan.entry
            == summary@.header->Some_0.entry && plan.segments@ == planned_segments(summary@.programs)),
{
    let entry = match summary.header {
        Some(h) => {
            if h.e_type == ET_EXEC && h.riscv {
                h.entry
            } else {
                return None;
            }
        },
        None => return None,
    };
    let mut segments: Vec<SegmentMap> = Vec::new();
    let mut i: usize = 0;
    while i < summary.programs.len()
        invariant
            i <= summary.programs@.len(),
            all_loadable(summary@.programs, input_len as nat),
            segments@ == planned_segments(summary@.programs.take(i as int)),
        decreases summary.programs@.len() - i,
    {
        let p = &summary.programs[i];
        assert(summary@.programs.take(i + 1).drop_last() =~= summary@.programs.take(i as int));
        if p.load {
            assert(segment_loadable(summary@.programs[i as int], input_len as nat));
            let m = map_segment(p);
            segments.push(m);
        }
        i += 1;
    }
    assert(summary@.programs.take(i as int) =~= summary@.programs);
    Some(LoadPlan { entry, segments })
}

/// Reads the ELF file `input` and plans its loading. `None` when the file
/// cannot be read (it is too long to copy, its header promises program headers that are not there,
/// or `xmas-elf` refuses it), is not a RISC-V executable, or has a loadable
/// segment that cannot be loaded from it.
pub fn plan_from_elf(input: &[u8]) -> (r: Option<LoadPlan>)
    ensures
        r is Some <==> (input@.len() + 8 <= isize::MAX && program_headers_in_bounds(input@) && (elf_decoded(input@) matches Some(s) && (
        runnable(s.header) && all_loadable(s.programs, input@.len())))),
        r matches Some(plan) ==> plan.entry == elf_decoded(input@)->Some_0.header->Some_0.entry
            && plan.segments@ == planned_segments(elf_decoded(input@)->Some_0.programs),
{
    if input.len() > isize::MAX as usize - 8 || !program_headers_fit(input) {
        return None;
    }
    let summary = match decode_elf(input) {
        Some(s) => s,
        None => return None,
    };
    let len = input.len() as u64;
    let mut i: usize = 0;
    while i < summary.programs.len()
        invariant
            i <= summary.programs@.len(),
            len == input@.len(),
            elf_decoded(input@) == Some(summary@),
            forall|j: int| 0 <= j < i && (#[trigger] summary@.programs[j]).load ==> segment_loadable(
                summary@.programs[j],
                len as nat,
            ),
        decreases summary.programs@.len() - i,
    {
        let p = &summary.programs[i];
        if p.load && !segment_fits(p, len) {
            assert(summary@.programs[i as int].load && !segment_loadable(summary@.programs[i as int], len as nat));
            assert(!all_loadable(summary@.programs, input@.len()));
            assert(elf_decoded(input@) == Some(summary@));
            return None;
        }
        i += 1;
    }
    load_plan(&summary, len)
}

/// Whether segment `p` can be loaded from a file of `input_len` bytes.
fn segment_fits(p: &ProgramSummary, input_len: u64) -> (r: bool)
    ensures
        r == segment_loadable(*p, input_len as nat),
{
    if p.mem_size > u64::MAX - p.virtual_addr {
        return false;
    }
    if p.file_size > input_len || p.offset > input_len - p.file_size {
        return false;
    }
    if p.offset & PAGE_MASK != p.virtual_addr & PAGE_MASK {
        proof {
            lemma_page_bits(p.offset);
            lemma_page_bits(p.virtual_addr);
        }
        return false;
    }
    let end_mem = p.virtual_addr + p.mem_size;
    proof {
        lemma_page_bits(p.offset);
        lemma_page_bits(p.virtual_addr);
        lemma_page_bits(end_mem);
    }
    let first = (p.virtual_addr & VADDR_MASK) >> PAGE_BITS;
    let end = ((end_mem & VADDR_MASK) + PAGE_MASK) >> PAGE_BITS;
    if end < first {
        return false;
    }
    let pages = end - first;
    assert(pages <= 0x800_0000);
    pages * PAGE_SIZE >= p.file_size + (p.virtual_addr & PAGE_MASK)
}

/// The `satp` value that selects the Sv39 address space whose root page
/// table is page `root_ppn`.
pub fn satp_for(root_ppn: u64) -> (r: u64)
    ensures
        r == SATP_SV39 | root_ppn,
{
    SATP_SV39 | root_ppn
}

} // verus!
