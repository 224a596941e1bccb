//! Address-space building blocks: page ownership, mapped segments, the
//! steps that fill page-table entries for a range of frames or look one up,
//! the contents of freshly mapped pages, and the plan of the kernel's own
//! address space.
use crate::linker::{KernelLayout, KernelRegionTitle, LayoutState};
use vstd::prelude::*;

verus! {

broadcast use vstd::seq_lib::group_seq_properties;

/// Who owns a mapped page.
#[derive(Clone, Copy, PartialEq, Eq, Structural, Debug)]
pub enum Ownership {
    /// Owned by the address space; reclaimed when unmapped.
    Owned,
    /// A static reference; never reclaimed by the address space.
    Ref,
    /// Reference counted; reclaimed when the last mapping goes.
    Rc,
    /// Copy on write; never writable, copied when written.
    Cow,
}

/// Sv39 flag bit: valid.
pub const FLAG_V: u64 = 0x1;
/// Sv39 flag bit: readable.
pub const FLAG_R: u64 = 0x2;
/// Sv39 flag bit: writable.
pub const FLAG_W: u64 = 0x4;
/// Sv39 flag bit: executable.
pub const FLAG_X: u64 = 0x8;
/// Sv39 flag bit: user accessible.
pub const FLAG_U: u64 = 0x10;
/// Sv39 flag bit: global.
pub const FLAG_G: u64 = 0x20;
/// Where the physical page number sits in an Sv39 page-table entry.
pub const PPN_POS: u64 = 10;
/// Mask of the physical page number bits of an Sv39 page-table entry.
pub const PPN_MASK: u64 = 0x003f_ffff_ffff_fc00;

/// The Sv39 page-table entry with flags `flags` pointing to page `ppn`.
pub open spec fn spec_pte(flags: u64, ppn: u64) -> u64 {
    flags | ((ppn << PPN_POS) & PPN_MASK)
}

/// The Sv39 page-table entry with flags `flags` pointing to page `ppn`.
pub fn build_pte(flags: u64, ppn: u64) -> (r: u64)
    ensures
        r == spec_pte(flags, ppn),
{
    flags | ((ppn << PPN_POS) & PPN_MASK)
}

/// Whether flags `have` include all of `want`.
pub fn flags_contain(have: u64, want: u64) -> (r: bool)
    ensures
        r == (have & want == want),
{
    have & want == want
}

/// The steps that map the physical pages `[next, end)` one after another to
/// consecutive page-table entries.
pub struct Mapper {
    next: u64,
    end: u64,
    flags: u64,
    done: bool,
}

/// What the page-table walk does after a mapping step.
#[derive(Clone, Copy, PartialEq, Eq, Structural, Debug)]
pub enum WalkStep {
    /// Go on with the next entry.
    Next,
    /// Stop the walk.
    Stop,
}

impl Mapper {
    /// The next physical page to map.
    pub closed spec fn next_page(&self) -> u64 {
        self.next
    }

    /// The physical page after the last one to map.
    pub closed spec fn end_page(&self) -> u64 {
        self.end
    }

    /// The flags of the entries written.
    pub closed spec fn entry_flags(&self) -> u64 {
        self.flags
    }

    /// Whether every page was mapped.
    pub closed spec fn finished(&self) -> bool {
        self.done
    }

    /// Steps mapping the pages `[first, end)` with flags `flags`.
    pub fn new(first: u64, end: u64, flags: u64) -> (r: Self)
        ensures
            r.next_page() == first,
            r.end_page() == end,
            r.entry_flags() == flags,
            !r.finished(),
    {
        Self { next: first, end, flags, done: false }
    }

    /// Whether every page was mapped.
    pub fn ans(self) -> (r: bool)
        ensures
            r == self.finished(),
    {
        self.done
    }

    /// Fills an empty entry with the next page; stops the walk once the last
    /// page is mapped. Returns the entry's new value and what to do next.
    pub fn arrive(&mut self, entry_valid: bool) -> (r: (u64, WalkStep))
        requires
            !entry_valid,
        ensures
            r.0 == spec_pte(old(self).entry_flags(), old(self).next_page()),
            final(self).next_page() == old(self).next_page().wrapping_add(1),
            final(self).end_page() == old(self).end_page(),
            final(self).entry_flags() == old(self).entry_flags(),
            final(self).finished() == (old(self).finished() || final(self).next_page() == old(self).end_page()),
            r.1 == (if final(self).next_page() == old(self).end_page() { WalkStep::Stop } else { WalkStep::Next }),
    {
        let pte = build_pte(self.flags, self.next);
        self.next = self.next.wrapping_add(1);
        if self.next == self.end {
            self.done = true;
            (pte, WalkStep::Stop)
        } else {
            (pte, WalkStep::Next)
        }
    }
}

/// The step that looks up the entry mapping one page.
pub struct Visitor {
    ans: Option<u64>,
}

impl Visitor {
    /// The entry found, if any.
    pub closed spec fn found(&self) -> Option<u64> {
        self.ans
    }

    /// A lookup that found nothing yet.
    pub fn new() -> (r: Self)
        ensures
            r.found() is None,
    {
        Self { ans: None }
    }

    /// The entry found, if any.
    pub fn ans(self) -> (r: Option<u64>)
        ensures
            r == self.found(),
    {
        self.ans
    }

    /// Reaches the entry of the page: keeps it when it is valid; the walk
    /// stops in any case.
    pub fn arrive(&mut self, entry: u64, entry_valid: bool) -> (r: WalkStep)
        ensures
            r == WalkStep::Stop,
            final(self).found() == (if entry_valid { Some(entry) } else { old(self).found() }),
    {
        if entry_valid {
            self.ans = Some(entry);
        }
        WalkStep::Stop
    }
}

/// The contents of `size` bytes of new pages holding `data` at byte
/// `offset`: zeros before, the data, zeros after.
pub open spec fn spec_page_image(size: nat, data: Seq<u8>, offset: nat) -> Seq<u8> {
    Seq::new(offset, |i: int| 0u8) + data + Seq::new(
        (size - offset - data.len()) as nat,
        |i: int| 0u8,
    )
}

/// The contents of the `size` bytes of new pages that receive `data` at
/// byte `offset`, as an address space fills the pages it maps for a program
/// segment; `size` is the number of pages shifted by the page bits.
pub fn page_image(size: usize, data: &[u8], offset: usize) -> (r: Vec<u8>)
    requires
        size >= data@.len() + offset,
    ensures
        r@ == spec_page_image(size as nat, data@, offset as nat),
        r@.len() == size,
{
    let mut r: Vec<u8> = Vec::new();
    let mut i: usize = 0;
    while i < offset
        invariant
            i <= offset,
            r@ == Seq::new(i as nat, |j: int| 0u8),
        decreases offset - i,
    {
        r.push(0);
        i += 1;
        assert(r@ =~= Seq::new(i as nat, |j: int| 0u8));
    }
    let mut k: usize = 0;
    while k < data.len()
        invariant
            k <= data@.len(),
            r@ == Seq::new(offset as nat, |j: int| 0u8) + data@.take(k as int),
        decreases data@.len() - k,
    {
        r.push(data[k]);
        k += 1;
        assert(r@ =~= Seq::new(offset as nat, |j: int| 0u8) + data@.take(k as int));
    }
    assert(data@.take(k as int) =~= data@);
    let filled = offset + data.len();
    let mut t: usize = filled;
    while t < size
        invariant
            filled <= t <= size,
            filled == offset + data@.len(),
            r@ == Seq::new(offset as nat, |j: int| 0u8) + data@ + Seq::new((t - filled) as nat, |j: int| 0u8),
        decreases size - t,
    {
        r.push(0);
        t += 1;
        assert(r@ =~= Seq::new(offset as nat, |j: int| 0u8) + data@ + Seq::new((t - filled) as nat, |j: int| 0u8));
    }
    r
}

/// Last virtual page under Sv39, where the portal lives.
pub const PORTAL_PAGE: u64 = 0x7ff_ffff;
/// Mask of the significant bits of an Sv39 virtual address.
pub const SV39_ADDR_MASK: u64 = 0x7f_ffff_ffff;
/// Flags of kernel code: executable, readable, valid.
pub const KERNEL_TEXT_FLAGS: u64 = 0xb;
/// Flags of kernel read-only data: readable, valid.
pub const KERNEL_RODATA_FLAGS: u64 = 0x3;
/// Flags of kernel data: writable, readable, valid.
pub const KERNEL_DATA_FLAGS: u64 = 0x7;
/// Flags of the portal: global, executable, writable, readable, valid.
pub const PORTAL_FLAGS: u64 = 0x2f;

/// One identity or direct mapping of the kernel's address space.
#[derive(Clone, Copy, PartialEq, Eq, Structural, Debug)]
pub struct KernelMapping {
    /// First virtual page.
    pub first_page: u64,
    /// Virtual page after the last.
    pub end_page: u64,
    /// Physical page the first virtual page maps to.
    pub frame: u64,
    /// Entry flags.
    pub flags: u64,
}

/// The page of address `addr` under Sv39.
pub open spec fn sv39_floor(addr: u64) -> u64 {
    ((addr % 0x80_0000_0000) / 4096) as u64
}

/// The page after address `addr` and the pages below it under Sv39.
pub open spec fn sv39_ceil(addr: u64) -> u64 {
    ((addr % 0x80_0000_0000 + 4095) / 4096) as u64
}

/// The identity mapping of the addresses `[start, end)` with flags `flags`.
pub open spec fn identity_mapping(start: u64, end: u64, flags: u64) -> KernelMapping {
    KernelMapping { first_page: sv39_floor(start), end_page: sv39_ceil(end), frame: sv39_floor(start), flags }
}

/// The mappings of the kernel's address space: each kernel region mapped to
/// itself with its permissions, the rest of `memory` bytes from the kernel's
/// start mapped to itself as heap, and the portal page at `portal` mapped to
/// the last virtual page.
pub open spec fn spec_kernel_space(l: LayoutState, memory: u64, portal: u64) -> Seq<KernelMapping> {
    seq![
        identity_mapping(l.text as u64, l.rodata as u64, KERNEL_TEXT_FLAGS),
        identity_mapping(l.rodata as u64, l.data as u64, KERNEL_RODATA_FLAGS),
        identity_mapping(l.data as u64, l.ebss as u64, KERNEL_DATA_FLAGS),
        identity_mapping(l.boot as u64, l.end as u64, KERNEL_DATA_FLAGS),
        identity_mapping(l.end as u64, (l.text + memory) as u64, KERNEL_DATA_FLAGS),
        KernelMapping { first_page: PORTAL_PAGE, end_page: (PORTAL_PAGE + 1) as u64, frame: portal / 4096, flags: PORTAL_FLAGS },
    ]
}

proof fn lemma_sv39_pages(addr: u64)
    ensures
        (addr & SV39_ADDR_MASK) >> 12u64 == sv39_floor(addr),
        (((addr & SV39_ADDR_MASK) + 4095) as u64) >> 12u64 == sv39_ceil(addr),
        (addr & SV39_ADDR_MASK) + 4095 <= u64::MAX,
{
    assert((addr & 0x7f_ffff_ffffu64) == addr % 0x80_0000_0000) by (bit_vector);
    assert((addr & 0x7f_ffff_ffffu64) <= 0x7f_ffff_ffffu64) by (bit_vector);
    let m = addr & 0x7f_ffff_ffffu64;
    assert(m >> 12u64 == m / 4096) by (bit_vector);
    assert(m <= 0x7f_ffff_ffffu64 ==> ((m + 4095) as u64) >> 12u64 == (m + 4095) / 4096) by (bit_vector);
}

fn identity_map(start: u64, end: u64, flags: u64) -> (r: KernelMapping)
    ensures
        r == identity_mapping(start, end, flags),
{
    proof {
        lemma_sv39_pages(start);
        lemma_sv39_pages(end);
    }
    let first = (start & SV39_ADDR_MASK) >> 12;
    KernelMapping { first_page: first, end_page: ((end & SV39_ADDR_MASK) + 4095) >> 12, frame: first, flags }
}

/// The mappings of the kernel's address space, in the order they are made.
pub fn kernel_space(layout: &KernelLayout, memory: usize, portal: usize) -> (r: Vec<KernelMapping>)
    requires
        layout@.text + memory <= usize::MAX,
    ensures
        r@ == spec_kernel_space(layout@, memory as u64, portal as u64),
{
    let mut r: Vec<KernelMapping> = Vec::new();
    let mut regions = layout.iter();
    let mut n: usize = 0;
    while n < 4
        invariant
            n <= 4,
            regions.layout_view() == layout@,
            regions.upcoming() == crate::linker::nth_region(n as nat),
            r@ == spec_kernel_space(layout@, memory as u64, portal as u64).take(n as int),
        decreases 4 - n,
    {
        let region = regions.next();
        match region {
            Some(region) => {
                let flags = match region.title {
                    KernelRegionTitle::Text => KERNEL_TEXT_FLAGS,
                    KernelRegionTitle::Rodata => KERNEL_RODATA_FLAGS,
                    _ => KERNEL_DATA_FLAGS,
                };
                let m = identity_map(region.range.start as u64, region.range.end as u64, flags);
                r.push(m);
            },
            None => {},
        }
        n += 1;
        assert(r@ =~= spec_kernel_space(layout@, memory as u64, portal as u64).take(n as int));
    }
    let heap = identity_map(layout.end() as u64, (layout.start() + memory) as u64, KERNEL_DATA_FLAGS);
    r.push(heap);
    r.push(KernelMapping { first_page: PORTAL_PAGE, end_page: PORTAL_PAGE + 1, frame: portal as u64 >> 12, flags: PORTAL_FLAGS });
    proof {
        let p = portal as u64;
        assert(p >> 12u64 == p / 4096) by (bit_vector);
    }
    assert(r@ =~= spec_kernel_space(layout@, memory as u64, portal as u64));
    r
}


/// Flags of kernel code below the transit section: executable, readable,
/// valid.
pub const EARLY_TEXT_FLAGS: u64 = 0b1011;
/// Flags of the transit section: executable, writable, readable, valid.
pub const EARLY_TRANSIT_FLAGS: u64 = 0b1111;

/// The flags of the page at address `addr` in the early kernel address space,
/// where each kernel page maps to itself: code below `transit` is
/// executable, the transit section up to `rodata` executable and writable,
/// read-only data up to `data` readable, data and bss up to `end` writable.
/// `None` from `end` on, where the mapping stops.
pub open spec fn spec_early_kernel_flags(addr: usize, transit: usize, rodata: usize, data: usize, end: usize) -> Option<u64> {
    if addr < transit {
        Some(EARLY_TEXT_FLAGS)
    } else if addr < rodata {
        Some(EARLY_TRANSIT_FLAGS)
    } else if addr < data {
        Some(KERNEL_RODATA_FLAGS)
    } else if addr < end {
        Some(KERNEL_DATA_FLAGS)
    } else {
        None
    }
}

/// The flags of the page at address `addr` in the early kernel address
/// space.
pub fn early_kernel_flags(addr: usize, transit: usize, rodata: usize, data: usize, end: usize) -> (r: Option<u64>)
    ensures
        r == spec_early_kernel_flags(addr, transit, rodata, data, end),
{
    if addr < transit {
        Some(EARLY_TEXT_FLAGS)
    } else if addr < rodata {
        Some(EARLY_TRANSIT_FLAGS)
    } else if addr < data {
        Some(KERNEL_RODATA_FLAGS)
    } else if addr < end {
        Some(KERNEL_DATA_FLAGS)
    } else {
        None
    }
}


/// The identity mappings of device memory: each range `(base, len)` of
/// `mmio`, in order, mapped to itself writable, as the kernels that drive
/// devices add to their own address space.
pub fn mmio_mappings(mmio: &[(usize, usize)]) -> (r: Vec<KernelMapping>)
    requires
        forall|i: int| 0 <= i < mmio@.len() ==> #[trigger] mmio@[i].0 + mmio@[i].1 <= usize::MAX,
    ensures
        r@ == Seq::new(
            mmio@.len(),
            |i: int| identity_mapping(mmio@[i].0 as u64, (mmio@[i].0 + mmio@[i].1) as u64, KERNEL_DATA_FLAGS),
        ),
{
    let mut r: Vec<KernelMapping> = Vec::new();
    let mut i: usize = 0;
    while i < mmio.len()
        invariant
            i <= mmio@.len(),
            forall|j: int| 0 <= j < mmio@.len() ==> #[trigger] mmio@[j].0 + mmio@[j].1 <= usize::MAX,
            r@ == Seq::new(
                i as nat,
                |j: int| identity_mapping(mmio@[j].0 as u64, (mmio@[j].0 + mmio@[j].1) as u64, KERNEL_DATA_FLAGS),
            ),
        decreases mmio@.len() - i,
    {
        let (base, len) = mmio[i];
        assert(mmio@[i as int].0 + mmio@[i as int].1 <= usize::MAX);
        r.push(identity_map(base as u64, (base + len) as u64, KERNEL_DATA_FLAGS));
        i += 1;
        assert(r@ =~= Seq::new(
            i as nat,
            |j: int| identity_mapping(mmio@[j].0 as u64, (mmio@[j].0 + mmio@[j].1) as u64, KERNEL_DATA_FLAGS),
        ));
    }
    r
}

} // verus!
