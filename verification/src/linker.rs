//! The kernel's memory layout as the linker script lays it out, and the
//! applications linked into the kernel image.
use core::ops::Range;
use vstd::prelude::*;

verus! {

/// Addresses of the kernel sections.
#[derive(Clone, Copy, Debug)]
pub struct KernelLayout {
    text: usize,
    rodata: usize,
    data: usize,
    sbss: usize,
    ebss: usize,
    boot: usize,
    end: usize,
}

/// Abstract view of a [`KernelLayout`].
pub struct LayoutState {
    pub text: usize,
    pub rodata: usize,
    pub data: usize,
    pub sbss: usize,
    pub ebss: usize,
    pub boot: usize,
    pub end: usize,
}

impl View for KernelLayout {
    type V = LayoutState;

    closed spec fn view(&self) -> LayoutState {
        LayoutState {
            text: self.text,
            rodata: self.rodata,
            data: self.data,
            sbss: self.sbss,
            ebss: self.ebss,
            boot: self.boot,
            end: self.end,
        }
    }
}

/// The name of a kernel region.
#[derive(Clone, Copy, PartialEq, Eq, Structural, Debug)]
pub enum KernelRegionTitle {
    /// Code.
    Text,
    /// Read-only data.
    Rodata,
    /// Data and zero-initialised data.
    Data,
    /// Boot data, which the kernel may give up once it has started.
    Boot,
}

/// A kernel region.
pub struct KernelRegion {
    /// The region's name.
    pub title: KernelRegionTitle,
    /// The region's addresses.
    pub range: Range<usize>,
}

/// The regions of a layout, in address order.
pub open spec fn region_bounds(l: LayoutState, title: KernelRegionTitle) -> (usize, usize) {
    match title {
        KernelRegionTitle::Text => (l.text, l.rodata),
        KernelRegionTitle::Rodata => (l.rodata, l.data),
        KernelRegionTitle::Data => (l.data, l.ebss),
        KernelRegionTitle::Boot => (l.boot, l.end),
    }
}

/// The region that follows `title`, if any.
pub open spec fn region_after(title: KernelRegionTitle) -> Option<KernelRegionTitle> {
    match title {
        KernelRegionTitle::Text => Some(KernelRegionTitle::Rodata),
        KernelRegionTitle::Rodata => Some(KernelRegionTitle::Data),
        KernelRegionTitle::Data => Some(KernelRegionTitle::Boot),
        KernelRegionTitle::Boot => None,
    }
}

/// The title of the `n`-th region, counting from zero.
pub open spec fn nth_region(n: nat) -> Option<KernelRegionTitle> {
    if n == 0 {
        Some(KernelRegionTitle::Text)
    } else if n == 1 {
        Some(KernelRegionTitle::Rodata)
    } else if n == 2 {
        Some(KernelRegionTitle::Data)
    } else if n == 3 {
        Some(KernelRegionTitle::Boot)
    } else {
        None
    }
}

impl KernelLayout {
    /// The layout with the given section addresses, as the linker symbols
    /// `_start`, `__rodata`, `__data`, `__sbss`, `__ebss`, `__boot` and
    /// `__end` give them.
    pub fn locate(
        text: usize,
        rodata: usize,
        data: usize,
        sbss: usize,
        ebss: usize,
        boot: usize,
        end: usize,
    ) -> (r: Self)
        ensures
            r@ == (LayoutState { text, rodata, data, sbss, ebss, boot, end }),
    {
        Self { text, rodata, data, sbss, ebss, boot, end }
    }

    /// Start of the kernel.
    pub fn start(&self) -> (r: usize)
        ensures
            r == self@.text,
    {
        self.text
    }

    /// End of the kernel.
    pub fn end(&self) -> (r: usize)
        ensures
            r == self@.end,
    {
        self.end
    }

    /// Size of the kernel's static image.
    pub fn len(&self) -> (r: usize)
        requires
            self@.text <= self@.end,
        ensures
            r == self@.end - self@.text,
    {
        self.end - self.text
    }

    /// Start and end of the zero-initialised data.
    pub fn bss(&self) -> (r: (usize, usize))
        ensures
            r == (self@.sbss, self@.ebss),
    {
        (self.sbss, self.ebss)
    }

    /// An iterator over the kernel regions.
    pub fn iter(&self) -> (r: KernelRegionIterator<'_>)
        ensures
            r.layout_view() == self@,
            r.upcoming() == Some(KernelRegionTitle::Text),
    {
        KernelRegionIterator { layout: self, next: Some(KernelRegionTitle::Text) }
    }
}

/// Iterator over the kernel regions: code, read-only data, data, boot data.
pub struct KernelRegionIterator<'a> {
    layout: &'a KernelLayout,
    next: Option<KernelRegionTitle>,
}

impl<'a> KernelRegionIterator<'a> {
    /// The layout iterated over.
    pub closed spec fn layout_view(&self) -> LayoutState {
        self.layout@
    }

    /// The region the next call returns, if any.
    pub closed spec fn upcoming(&self) -> Option<KernelRegionTitle> {
        self.next
    }

    /// The next region.
    pub fn next(&mut self) -> (r: Option<KernelRegion>)
        ensures
            final(self).layout_view() == old(self).layout_view(),
            old(self).upcoming() is None ==> r is None && final(self).upcoming() is None,
            old(self).upcoming() matches Some(t) ==> {
                &&& r matches Some(region) && region.title == t && (region.range.start, region.range.end)
                    == region_bounds(old(self).layout_view(), t)
                &&& final(self).upcoming() == region_after(t)
            },
    {
        match self.next {
            None => None,
            Some(KernelRegionTitle::Text) => {
                self.next = Some(KernelRegionTitle::Rodata);
                Some(KernelRegion { title: KernelRegionTitle::Text, range: self.layout.text..self.layout.rodata })
            },
            Some(KernelRegionTitle::Rodata) => {
                self.next = Some(KernelRegionTitle::Data);
                Some(KernelRegion { title: KernelRegionTitle::Rodata, range: self.layout.rodata..self.layout.data })
            },
            Some(KernelRegionTitle::Data) => {
                self.next = Some(KernelRegionTitle::Boot);
                Some(KernelRegion { title: KernelRegionTitle::Data, range: self.layout.data..self.layout.ebss })
            },
            Some(KernelRegionTitle::Boot) => {
                self.next = None;
                Some(KernelRegion { title: KernelRegionTitle::Boot, range: self.layout.boot..self.layout.end })
            },
        }
    }
}

/// Iterating from the start visits exactly four regions, code, read-only
/// data, data and boot data, in this order, and then stops.
pub proof fn law_four_regions(n: nat)
    ensures
        n < 4 ==> region_after(nth_region(n)->Some_0) == nth_region(n + 1),
        n >= 4 ==> nth_region(n) is None,
        nth_region(0) == Some(KernelRegionTitle::Text),
{
}

/// Size of the memory slot each application is loaded into.
pub const APP_SLOT_SIZE: u64 = 0x20_0000;

/// The table the linker writes for the applications linked into the kernel:
/// where they are to be loaded and where their images lie.
pub struct AppMeta {
    /// Load address of the first application; zero when applications run in place.
    pub base: u64,
    /// Distance between the load addresses of consecutive applications.
    pub step: u64,
    /// Number of applications.
    pub count: u64,
    /// Start of each image and, last, the end of the last image.
    pub locations: Vec<u64>,
}

/// Where one application's image lies and where it is to be copied.
#[derive(Clone, Copy, PartialEq, Eq, Structural, Debug)]
pub struct AppImage {
    /// Start of the image in the kernel.
    pub source: u64,
    /// Size of the image in bytes.
    pub size: u64,
    /// Load address, when the image is copied; the rest of the
    /// [`APP_SLOT_SIZE`] bytes of the slot is zeroed.
    pub destination: Option<u64>,
}

impl AppMeta {
    /// The table is consistent: one location more than applications, images
    /// in address order, load addresses representable, and every image fits
    /// its slot when images are copied.
    pub open spec fn wf(&self) -> bool {
        &&& self.locations@.len() == self.count + 1
        &&& forall|i: int| 0 <= i < self.count ==> #[trigger] self.locations@[i] <= self.locations@[i + 1]
        &&& self.base + self.count * self.step <= u64::MAX
        &&& self.base != 0 ==> forall|i: int| 0 <= i < self.count ==> #[trigger] self.locations@[i + 1]
            - self.locations@[i] <= APP_SLOT_SIZE
    }

    /// The image of application `i`.
    pub open spec fn image(&self, i: int) -> AppImage {
        let base = self.base + i * self.step;
        AppImage {
            source: self.locations@[i],
            size: (self.locations@[i + 1] - self.locations@[i]) as u64,
            destination: if base != 0 { Some(base as u64) } else { None },
        }
    }

    /// An iterator over the applications.
    pub fn iter(&self) -> (r: AppIterator<'_>)
        ensures
            r.meta() == self,
            r.position() == 0,
    {
        AppIterator { meta: self, i: 0 }
    }
}

/// Iterator over the applications linked into the kernel.
pub struct AppIterator<'a> {
    meta: &'a AppMeta,
    i: u64,
}

impl<'a> AppIterator<'a> {
    /// The table iterated over.
    pub closed spec fn meta(&self) -> &'a AppMeta {
        self.meta
    }

    /// How many applications were returned so far.
    pub closed spec fn position(&self) -> nat {
        self.i as nat
    }

    /// The next application's image.
    pub fn next(&mut self) -> (r: Option<AppImage>)
        requires
            old(self).meta().wf(),
            old(self).position() <= old(self).meta().count,
        ensures
            final(self).meta() == old(self).meta(),
            final(self).position() <= final(self).meta().count,
            old(self).position() == old(self).meta().count ==> r is None && final(self).position()
                == old(self).position(),
            old(self).position() < old(self).meta().count ==> r == Some(
                old(self).meta().image(old(self).position() as int),
            ) && final(self).position() == old(self).position() + 1,
    {
        if self.i >= self.meta.count {
            None
        } else {
            let i = self.i;
            self.i += 1;
            let n = self.meta.locations.len();
            assert(i < n);
            let ii = i as usize;
            let pos = self.meta.locations[ii];
            let size = self.meta.locations[ii + 1] - pos;
            proof {
                assert(self.meta.locations@[i as int] <= self.meta.locations@[i + 1]);
                assert(i * self.meta.step <= self.meta.count * self.meta.step) by (nonlinear_arith)
                    requires i < self.meta.count;
            }
            let base = self.meta.base + i * self.meta.step;
            if base != 0 {
                Some(AppImage { source: pos, size, destination: Some(base) })
            } else {
                Some(AppImage { source: pos, size, destination: None })
            }
        }
    }
}


impl AppMeta {
    /// Every application's image, in table order: what iterating from the
    /// start yields, one image per application, after which the iterator
    /// yields nothing.
    pub fn images(&self) -> (r: Vec<AppImage>)
        requires
            self.wf(),
        ensures
            r@ == Seq::new(self.count as nat, |i: int| self.image(i)),
    {
        let mut it = self.iter();
        let mut r: Vec<AppImage> = Vec::new();
        loop
            invariant
                it.meta() == self,
                self.wf(),
                it.position() <= self.count,
                r@ == Seq::new(it.position(), |i: int| self.image(i)),
            decreases self.count - it.position(),
        {
            let ghost before = it.position();
            match it.next() {
                Some(image) => {
                    r.push(image);
                    assert(r@ =~= Seq::new(it.position(), |i: int| self.image(i)));
                },
                None => {
                    assert(before == self.count);
                    return r;
                },
            }
        }
    }
}

/// What one call of [`AppIterator::next`] states of the iterator before it
/// (`it`), after it (`next_it`) and of what it returned (`out`).
pub open spec fn app_step(it: AppIterator, out: Option<AppImage>, next_it: AppIterator) -> bool {
    &&& next_it.meta() == it.meta()
    &&& it.position() == it.meta().count ==> out is None && next_it.position() == it.position()
    &&& it.position() < it.meta().count ==> out == Some(it.meta().image(it.position() as int))
        && next_it.position() == it.position() + 1
}

proof fn lemma_app_positions(its: Seq<AppIterator>, outs: Seq<Option<AppImage>>, meta: &AppMeta, i: int)
    requires
        its.len() == outs.len() + 1,
        0 <= i < its.len(),
        its[0].meta() == meta,
        its[0].position() == 0,
        forall|j: int| 0 <= j < outs.len() ==> app_step(its[j], #[trigger] outs[j], its[j + 1]),
    ensures
        its[i].meta() == meta,
        its[i].position() == if i < meta.count { i } else { meta.count as int },
    decreases i,
{
    if i > 0 {
        lemma_app_positions(its, outs, meta, i - 1);
        assert(app_step(its[i - 1], outs[i - 1], its[i]));
    }
}

/// Calling [`AppIterator::next`] again and again from a fresh iterator over
/// a consistent table yields the image of every application, in table order,
/// and after the last one nothing, on every further call. `its` are the
/// iterators between the calls and `outs` what the calls returned.
pub proof fn law_iterator_yields_all(its: Seq<AppIterator>, outs: Seq<Option<AppImage>>, meta: &AppMeta)
    requires
        meta.wf(),
        its.len() == outs.len() + 1,
        its[0].meta() == meta,
        its[0].position() == 0,
        forall|j: int| 0 <= j < outs.len() ==> app_step(its[j], #[trigger] outs[j], its[j + 1]),
    ensures
        forall|j: int| 0 <= j < outs.len() && j < meta.count ==> #[trigger] outs[j] == Some(meta.image(j)),
        forall|j: int| 0 <= j < outs.len() && j >= meta.count ==> #[trigger] outs[j] is None,
{
    assert forall|j: int| 0 <= j < outs.len() implies (j < meta.count ==> #[trigger] outs[j] == Some(meta.image(j)))
        && (j >= meta.count ==> outs[j] is None) by {
        lemma_app_positions(its, outs, meta, j);
        assert(app_step(its[j], outs[j], its[j + 1]));
    }
}

} // verus!
