//! Counting the pages an address space needs: the pages of the mapped
//! segments and the page-table pages that map them. Counting first lets the
//! kernel allocate all pages of a new address space at once.
use vstd::arithmetic::div_mod::{lemma_div_is_ordered, lemma_div_denominator, lemma_fundamental_div_mod, lemma_fundamental_div_mod_converse};
use vstd::arithmetic::power2::{lemma_pow2_adds, lemma_pow2_pos, pow2};
use vstd::bits::{lemma_usize_pow2_no_overflow, lemma_usize_shl_is_mul, lemma_usize_shr_is_div};
use vstd::prelude::*;
use vstd::set_lib::{lemma_int_range, lemma_len_subset, lemma_set_disjoint_lens, set_int_range};

verus! {

/// `x` shifted right by `b` bits.
pub open spec fn shr(x: int, b: usize) -> int {
    x / (pow2(b as nat) as int)
}

/// `x` shifted right by `b` bits, rounding up.
pub open spec fn ceil_shr(x: int, b: usize) -> int {
    (x + pow2(b as nat) - 1) / (pow2(b as nat) as int)
}

/// The pages `[first, end)` spanned by the address range `area`.
pub open spec fn area_pages(page_bits: usize, area: (usize, usize)) -> (int, int) {
    (shr(area.0 as int, page_bits), ceil_shr(area.1 as int, page_bits))
}

/// Abstract state of a page counter: the count and, for each page-table
/// level, the end of the table indices covered so far.
pub struct CounterModel {
    pub count: int,
    pub indices: Seq<int>,
}

/// Counts the page-table pages of levels `i..` that the pages `[s, e)` add.
/// At each level the tables up to the covered end are already counted; once a
/// level adds none the higher levels add none either.
pub open spec fn levels_step(m: CounterModel, shifts: Seq<usize>, s: int, e: int, i: int) -> CounterModel
    decreases shifts.len() - i,
{
    if i < 0 || i >= shifts.len() {
        m
    } else {
        let st = if m.indices[i] >= shr(s, shifts[i]) { m.indices[i] } else { shr(s, shifts[i]) };
        let en = ceil_shr(e, shifts[i]);
        if en > st {
            levels_step(
                CounterModel { count: m.count + en - st, indices: m.indices.update(i, en) },
                shifts,
                s,
                e,
                i + 1,
            )
        } else {
            m
        }
    }
}

/// The state after counting the address range `area`.
pub open spec fn area_step(m: CounterModel, shifts: Seq<usize>, page_bits: usize, area: (usize, usize)) -> CounterModel {
    let (s, e) = area_pages(page_bits, area);
    let t = levels_step(m, shifts, s, e, 0);
    CounterModel { count: t.count + e - s, indices: t.indices }
}

/// The state after counting the address ranges `areas` in order.
pub open spec fn insert_model(
    m: CounterModel,
    shifts: Seq<usize>,
    page_bits: usize,
    areas: Seq<(usize, usize)>,
) -> CounterModel
    decreases areas.len(),
{
    if areas.len() == 0 {
        m
    } else {
        area_step(insert_model(m, shifts, page_bits, areas.drop_last()), shifts, page_bits, areas.last())
    }
}

/// Most page-table pages of levels `i..` that the pages `[s, e)` can add.
pub open spec fn tables_cost(shifts: Seq<usize>, s: int, e: int, i: int) -> int
    decreases shifts.len() - i,
{
    if i < 0 || i >= shifts.len() {
        0
    } else {
        (ceil_shr(e, shifts[i]) - shr(s, shifts[i])) + tables_cost(shifts, s, e, i + 1)
    }
}

/// Most pages that counting the address ranges `areas` can add.
pub open spec fn total_cost(shifts: Seq<usize>, page_bits: usize, areas: Seq<(usize, usize)>) -> int
    decreases areas.len(),
{
    if areas.len() == 0 {
        0
    } else {
        let (s, e) = area_pages(page_bits, areas[0]);
        (e - s) + tables_cost(shifts, s, e, 0) + total_cost(shifts, page_bits, areas.skip(1))
    }
}

/// The sum of the first `n` level widths.
pub open spec fn prefix_bits(level_bits: Seq<usize>, n: int) -> int
    decreases n,
{
    if n <= 0 {
        0
    } else {
        prefix_bits(level_bits, n - 1) + level_bits[n - 1]
    }
}

/// The index shifts of the page-table levels below the root: entry `i` is
/// the number of page-number bits that level `i` tables cover, the sum of the
/// widths of levels `0..=i`.
pub fn bits_iter(level_bits: &[usize]) -> (r: Vec<usize>)
    requires
        level_bits@.len() >= 1,
        prefix_bits(level_bits@, level_bits@.len() as int) < usize::BITS,
    ensures
        r@.len() == level_bits@.len() - 1,
        forall|i: int| 0 <= i < r@.len() ==> #[trigger] r@[i] == prefix_bits(level_bits@, i + 1),
{
    let mut r: Vec<usize> = Vec::new();
    let mut tail: usize = 0;
    let mut i: usize = 0;
    proof {
        lemma_prefix_bits_monotone(level_bits@, 0, level_bits@.len() as int);
    }
    while i < level_bits.len() - 1
        invariant
            level_bits@.len() >= 1,
            prefix_bits(level_bits@, level_bits@.len() as int) < usize::BITS,
            i + 1 <= level_bits@.len(),
            tail == prefix_bits(level_bits@, i as int),
            r@.len() == i,
            forall|j: int| 0 <= j < i ==> #[trigger] r@[j] == prefix_bits(level_bits@, j + 1),
        decreases level_bits@.len() - i,
    {
        proof {
            lemma_prefix_bits_monotone(level_bits@, i + 1, level_bits@.len() as int);
        }
        tail = tail + level_bits[i];
        r.push(tail);
        i += 1;
    }
    r
}

proof fn lemma_prefix_bits_monotone(level_bits: Seq<usize>, a: int, b: int)
    requires
        0 <= a <= b <= level_bits.len(),
    ensures
        prefix_bits(level_bits, a) <= prefix_bits(level_bits, b),
    decreases b - a,
{
    if a < b {
        lemma_prefix_bits_monotone(level_bits, a, b - 1);
    }
}

/// Counter of the pages needed to map a sequence of address ranges.
pub struct PageCounter {
    count: usize,
    indices: [usize; 4],
    shifts: Vec<usize>,
    page_bits: usize,
}

impl View for PageCounter {
    type V = CounterModel;

    closed spec fn view(&self) -> CounterModel {
        CounterModel { count: self.count as int, indices: self.indices@.map_values(|v: usize| v as int) }
    }
}

impl PageCounter {
    /// The index shifts of the levels below the root.
    pub closed spec fn shifts(&self) -> Seq<usize> {
        self.shifts@
    }

    /// Bits of a page offset.
    pub closed spec fn page_bits(&self) -> usize {
        self.page_bits
    }

    /// The counter's invariant.
    pub open spec fn wf(&self) -> bool {
        &&& self.shifts().len() <= 4
        &&& self@.indices.len() == 4
        &&& self.page_bits() < usize::BITS
        &&& forall|i: int| 0 <= i < self.shifts().len() ==> #[trigger] self.shifts()[i] < usize::BITS
        &&& forall|i: int| 0 <= i < 4 ==> #[trigger] self@.indices[i] >= 0
    }

    /// A counter for a paging scheme with `page_bits`-bit page offsets and
    /// levels of the given widths, lowest level first; it counts the root
    /// page table.
    pub fn new(page_bits: usize, level_bits: &[usize]) -> (r: Self)
        requires
            1 <= level_bits@.len() <= 5,
            page_bits < usize::BITS,
            prefix_bits(level_bits@, level_bits@.len() as int) < usize::BITS,
        ensures
            r.wf(),
            r@.count == 1,
            r@.indices == seq![0int, 0int, 0int, 0int],
            r.page_bits() == page_bits,
            r.shifts().len() == level_bits@.len() - 1,
            widening(r.shifts()),
            forall|i: int| 0 <= i < r.shifts().len() ==> #[trigger] r.shifts()[i] == prefix_bits(
                level_bits@,
                i + 1,
            ),
    {
        let shifts = bits_iter(level_bits);
        proof {
            assert forall|i: int| 0 <= i < shifts@.len() implies #[trigger] shifts@[i] < usize::BITS by {
                lemma_prefix_bits_monotone(level_bits@, i + 1, level_bits@.len() as int);
            }
        }
        proof {
            assert forall|i: int, j: int| 0 <= i < j < shifts@.len() implies (#[trigger] shifts@[i]) <= (#[trigger] shifts@[j]) by {
                lemma_prefix_bits_monotone(level_bits@, i + 1, j + 1);
            }
        }
        let r = PageCounter { count: 1, indices: [0usize; 4], shifts, page_bits };
        assert(r@.indices =~= seq![0int, 0int, 0int, 0int]);
        r
    }

    /// The number of pages counted.
    pub fn count(&self) -> (r: usize)
        ensures
            r == self@.count,
    {
        self.count
    }

    /// Counts the address ranges `areas`, which must come in ascending order
    /// of address.
    pub fn insert(&mut self, areas: &[(usize, usize)])
        requires
            old(self).wf(),
            forall|k: int| 0 <= k < areas@.len() ==> area_ok(old(self).shifts(), old(self).page_bits(), #[trigger] areas@[k]),
            old(self)@.count + total_cost(old(self).shifts(), old(self).page_bits(), areas@) <= usize::MAX,
        ensures
            final(self).wf(),
            final(self).shifts() == old(self).shifts(),
            final(self).page_bits() == old(self).page_bits(),
            final(self)@ == insert_model(old(self)@, old(self).shifts(), old(self).page_bits(), areas@),
    {
        let mut k: usize = 0;
        assert(areas@.skip(0) =~= areas@);
        while k < areas.len()
            invariant
                k <= areas@.len(),
                self.wf(),
                self.shifts() == old(self).shifts(),
                self.page_bits() == old(self).page_bits(),
                forall|j: int| 0 <= j < areas@.len() ==> area_ok(self.shifts(), self.page_bits(), #[trigger] areas@[j]),
                self@ == insert_model(old(self)@, self.shifts(), self.page_bits(), areas@.take(k as int)),
                self@.count + total_cost(self.shifts(), self.page_bits(), areas@.skip(k as int)) <= usize::MAX,
            decreases areas@.len() - k,
        {
            let area = areas[k];
            proof {
                assert(areas@.take(k + 1).drop_last() =~= areas@.take(k as int));
                assert(areas@.take(k + 1).last() == area);
                assert(areas@.skip(k as int).skip(1) =~= areas@.skip(k + 1));
                assert(areas@.skip(k as int)[0] == area);
                lemma_total_cost_nonneg(self.shifts(), self.page_bits(), areas@.skip(k + 1));
            }
            self.insert_one(area, Ghost(total_cost(self.shifts(), self.page_bits(), areas@.skip(k + 1))));
            k += 1;
        }
        assert(areas@.take(k as int) =~= areas@);
    }

    fn insert_one(&mut self, area: (usize, usize), Ghost(rest): Ghost<int>)
        requires
            old(self).wf(),
            area_ok(old(self).shifts(), old(self).page_bits(), area),
            rest >= 0,
            old(self)@.count + (area_pages(old(self).page_bits(), area).1 - area_pages(old(self).page_bits(), area).0)
                + tables_cost(old(self).shifts(), area_pages(old(self).page_bits(), area).0,
                    area_pages(old(self).page_bits(), area).1, 0) + rest <= usize::MAX,
        ensures
            final(self).wf(),
            final(self).shifts() == old(self).shifts(),
            final(self).page_bits() == old(self).page_bits(),
            final(self)@ == area_step(old(self)@, old(self).shifts(), old(self).page_bits(), area),
            final(self)@.count + rest <= usize::MAX,
    {
        let ghost s0 = area_pages(self.page_bits(), area).0;
        let ghost e0 = area_pages(self.page_bits(), area).1;
        let ghost m0 = self@;
        let pb = self.page_bits;
        assert(s0 == shr(area.0 as int, pb) && e0 == ceil_shr(area.1 as int, pb));
        proof {
            lemma_usize_pow2_no_overflow(pb as nat);
            lemma_usize_shl_is_mul(1, pb);
            lemma_usize_shr_is_div(area.0, pb);
        }
        let start = area.0 >> pb;
        let e_sum = area.1 + ((1usize << pb) - 1);
        proof {
            lemma_usize_shr_is_div(e_sum, pb);
            lemma_shift_order(area.0 as int, area.1 as int, pb);
        }
        let end = e_sum >> pb;
        assert(start == s0 && end == e0);
        let mut i: usize = 0;
        while i < self.shifts.len()
            invariant
                self.wf(),
                self.shifts() == old(self).shifts(),
                self.page_bits() == pb,
                area_ok(self.shifts(), pb, area),
                start == s0,
                end == e0,
                s0 == shr(area.0 as int, pb),
                e0 == ceil_shr(area.1 as int, pb),
                rest >= 0,
                0 <= start <= end,
                i <= self.shifts().len(),
                levels_step(self@, self.shifts(), s0, e0, i as int) == levels_step(m0, self.shifts(), s0, e0, 0),
                self@.count + (e0 - s0) + tables_cost(self.shifts(), s0, e0, i as int) + rest <= usize::MAX,
            ensures
                self.wf(),
                self.shifts() == old(self).shifts(),
                self.page_bits() == pb,
                start == s0,
                end == e0,
                0 <= start <= end,
                self@ == levels_step(m0, self.shifts(), s0, e0, 0),
                self@.count + (e0 - s0) + rest <= usize::MAX,
            decreases self.shifts().len() - i,
        {
            let bits = self.shifts[i];
            proof {
                assert(bits == self.shifts()[i as int]);
                assert(bits < usize::BITS);
                assert(ceil_shr(area.1 as int, pb) + pow2(self.shifts()[i as int] as nat) - 1 <= usize::MAX);
                lemma_tables_cost_nonneg(self.shifts(), s0, e0, i + 1);
                lemma_usize_pow2_no_overflow(bits as nat);
                lemma_usize_shl_is_mul(1, bits);
                lemma_usize_shr_is_div(start, bits);
                lemma_shift_order(start as int, end as int, bits);
            }
            let floor_start = start >> bits;
            let idx = self.indices[i];
            let st = if idx >= floor_start { idx } else { floor_start };
            assert((1usize << bits) == pow2(bits as nat));
            assert(end + pow2(bits as nat) - 1 <= usize::MAX);
            let en_sum = end + ((1usize << bits) - 1);
            proof {
                lemma_usize_shr_is_div(en_sum, bits);
            }
            let en = en_sum >> bits;
            assert(en == ceil_shr(e0, bits));
            assert(floor_start == shr(s0, bits));
            assert(idx == self@.indices[i as int]);
            if en > st {
                let ghost before = self@;
                assert(en - st <= ceil_shr(e0, bits) - shr(s0, bits));
                assert(tables_cost(self.shifts(), s0, e0, i as int) == (ceil_shr(e0, bits) - shr(s0, bits))
                    + tables_cost(self.shifts(), s0, e0, i + 1));
                self.indices[i] = en;
                self.count = self.count + (en - st);
                proof {
                    assert(self@.indices =~= before.indices.update(i as int, en as int));
                }
            } else {
                break;
            }
            i += 1;
        }
        self.count = self.count + (end - start);
    }
}

proof fn lemma_tables_cost_nonneg(shifts: Seq<usize>, s: int, e: int, i: int)
    requires
        0 <= s <= e,
    ensures
        tables_cost(shifts, s, e, i) >= 0,
    decreases shifts.len() - i,
{
    if 0 <= i < shifts.len() {
        lemma_shift_order(s, e, shifts[i]);
        lemma_tables_cost_nonneg(shifts, s, e, i + 1);
    }
}

proof fn lemma_total_cost_nonneg(shifts: Seq<usize>, page_bits: usize, areas: Seq<(usize, usize)>)
    requires
        forall|k: int| 0 <= k < areas.len() ==> area_ok(shifts, page_bits, #[trigger] areas[k]),
    ensures
        total_cost(shifts, page_bits, areas) >= 0,
    decreases areas.len(),
{
    if areas.len() > 0 {
        let (s, e) = area_pages(page_bits, areas[0]);
        assert(area_ok(shifts, page_bits, areas[0]));
        lemma_shift_order(areas[0].0 as int, areas[0].1 as int, page_bits);
        lemma_tables_cost_nonneg(shifts, s, e, 0);
        assert forall|k: int| 0 <= k < areas.skip(1).len() implies area_ok(shifts, page_bits, #[trigger] areas.skip(1)[k]) by {
            assert(areas.skip(1)[k] == areas[k + 1]);
        }
        lemma_total_cost_nonneg(shifts, page_bits, areas.skip(1));
    }
}

/// An address range that can be counted: its ends are in order and no
/// rounding up overflows.
pub open spec fn area_ok(shifts: Seq<usize>, page_bits: usize, area: (usize, usize)) -> bool {
    &&& area.0 <= area.1
    &&& area.1 + pow2(page_bits as nat) - 1 <= usize::MAX
    &&& forall|i: int| 0 <= i < shifts.len() ==> ceil_shr(area.1 as int, page_bits) + pow2(
        (#[trigger] shifts[i]) as nat,
    ) - 1 <= usize::MAX
}

/// Rounding a range outwards to whole blocks keeps its ends in order.
proof fn lemma_shift_order(a: int, b: int, bits: usize)
    requires
        0 <= a <= b,
    ensures
        0 <= shr(a, bits) <= ceil_shr(b, bits),
{
    lemma_pow2_pos(bits as nat);
    let p = pow2(bits as nat) as int;
    lemma_div_is_ordered(a, b + p - 1, p);
    lemma_div_is_ordered(0, a, p);
}

/// The page ranges of the address ranges `areas`.
pub open spec fn pages_of(page_bits: usize, areas: Seq<(usize, usize)>) -> Seq<(int, int)> {
    areas.map_values(|a: (usize, usize)| area_pages(page_bits, a))
}

/// The end of the level-`b` table indices that the page ranges cover.
pub open spec fn max_end(pages: Seq<(int, int)>, b: usize) -> int
    decreases pages.len(),
{
    if pages.len() == 0 {
        0
    } else {
        let m = max_end(pages.drop_last(), b);
        let c = ceil_shr(pages.last().1, b);
        if c > m { c } else { m }
    }
}

/// The indices of the page tables, at the level whose tables cover `b` bits
/// of page number, that map some page of the ranges.
pub open spec fn covered(pages: Seq<(int, int)>, b: usize) -> Set<int> {
    Set::new(
        |x: int|
            exists|k: int| 0 <= k < pages.len() && shr(pages[k].0, b) <= x < ceil_shr(#[trigger] pages[k].1, b),
    )
}

/// The number of pages in the ranges.
pub open spec fn data_pages(pages: Seq<(int, int)>) -> int
    decreases pages.len(),
{
    if pages.len() == 0 {
        0
    } else {
        data_pages(pages.drop_last()) + (pages.last().1 - pages.last().0)
    }
}

/// The number of page tables of levels `i..` needed to map the ranges.
pub open spec fn table_pages(pages: Seq<(int, int)>, shifts: Seq<usize>, i: int) -> int
    decreases shifts.len() - i,
{
    if i < 0 || i >= shifts.len() {
        0
    } else {
        covered(pages, shifts[i]).len() + table_pages(pages, shifts, i + 1)
    }
}

/// Non-empty page ranges in ascending order of their first page.
pub open spec fn ascending(pages: Seq<(int, int)>) -> bool {
    &&& forall|k: int| 0 <= k < pages.len() ==> 0 <= (#[trigger] pages[k]).0 < pages[k].1
    &&& forall|k: int, l: int| 0 <= k < l < pages.len() ==> (#[trigger] pages[k]).0 <= (#[trigger] pages[l]).0
}

/// Each level's tables cover at least as many bits as the level below.
pub open spec fn widening(shifts: Seq<usize>) -> bool {
    forall|i: int, j: int| 0 <= i < j < shifts.len() ==> (#[trigger] shifts[i]) <= (#[trigger] shifts[j])
}

proof fn lemma_max_end(pages: Seq<(int, int)>, b: usize)
    requires
        forall|k: int| 0 <= k < pages.len() ==> 0 <= (#[trigger] pages[k]).1,
    ensures
        max_end(pages, b) >= 0,
        forall|k: int| 0 <= k < pages.len() ==> ceil_shr((#[trigger] pages[k]).1, b) <= max_end(pages, b),
        max_end(pages, b) > 0 ==> exists|k: int| 0 <= k < pages.len() && ceil_shr((#[trigger] pages[k]).1, b) == max_end(pages, b),
    decreases pages.len(),
{
    if pages.len() > 0 {
        let q = pages.drop_last();
        assert forall|k: int| 0 <= k < q.len() implies 0 <= (#[trigger] q[k]).1 by {
            assert(q[k] == pages[k]);
        }
        lemma_max_end(q, b);
        let last = pages.len() - 1;
        lemma_pow2_pos(b as nat);
        lemma_div_is_ordered(0, pages[last].1 + pow2(b as nat) - 1, pow2(b as nat) as int);
        assert forall|k: int| 0 <= k < pages.len() implies ceil_shr((#[trigger] pages[k]).1, b) <= max_end(pages, b) by {
            if k < last {
                assert(q[k] == pages[k]);
            }
        }
        if max_end(pages, b) > 0 {
            if ceil_shr(pages[last].1, b) > max_end(q, b) {
                assert(ceil_shr(pages[last].1, b) == max_end(pages, b));
            } else {
                let k = choose|k: int| 0 <= k < q.len() && ceil_shr((#[trigger] q[k]).1, b) == max_end(q, b);
                assert(q[k] == pages[k]);
            }
        }
    }
}

/// Adding a range that starts no earlier than every range before it adds
/// to the covered table indices exactly those from the larger of its first
/// index and the earlier end up to its own end.
proof fn lemma_covered_push(pages: Seq<(int, int)>, p: (int, int), b: usize)
    requires
        forall|k: int| 0 <= k < pages.len() ==> 0 <= (#[trigger] pages[k]).0 <= p.0,
        forall|k: int| 0 <= k < pages.len() ==> 0 <= (#[trigger] pages[k]).1,
        0 <= p.0,
    ensures
        covered(pages, b).finite(),
        covered(pages.push(p), b).finite(),
        ({
            let a = shr(p.0, b);
            let c = ceil_shr(p.1, b);
            let m = max_end(pages, b);
            let lo = if a >= m { a } else { m };
            covered(pages.push(p), b).len() == covered(pages, b).len() + (if c > lo { c - lo } else { 0 })
        }),
{
    let a = shr(p.0, b);
    let c = ceil_shr(p.1, b);
    let m = max_end(pages, b);
    let lo = if a >= m { a } else { m };
    let old_set = covered(pages, b);
    let new_set = covered(pages.push(p), b);
    lemma_max_end(pages, b);
    lemma_pow2_pos(b as nat);
    // The old indices lie below the old end.
    assert(old_set.subset_of(set_int_range(0, m))) by {
        assert forall|x: int| old_set.contains(x) implies set_int_range(0, m).contains(x) by {
            let k = choose|k: int| 0 <= k < pages.len() && shr(pages[k].0, b) <= x < ceil_shr(#[trigger] pages[k].1, b);
            lemma_div_is_ordered(0, pages[k].0, pow2(b as nat) as int);
        }
    }
    lemma_int_range(0, m);
    lemma_len_subset(old_set, set_int_range(0, m));
    let hi = if c > lo { c } else { lo };
    let added = set_int_range(lo, hi);
    lemma_int_range(lo, hi);
    assert(new_set =~= old_set + added) by {
        assert forall|x: int| new_set.contains(x) implies (old_set + added).contains(x) by {
            let k = choose|k: int| 0 <= k < pages.len() + 1 && shr(pages.push(p)[k].0, b) <= x < ceil_shr(#[trigger] pages.push(p)[k].1, b);
            if k < pages.len() {
                assert(pages.push(p)[k] == pages[k]);
                assert(old_set.contains(x));
            } else {
                if x < m {
                    let j = choose|j: int| 0 <= j < pages.len() && ceil_shr((#[trigger] pages[j]).1, b) == m;
                    lemma_div_is_ordered(pages[j].0, p.0, pow2(b as nat) as int);
                    assert(shr(pages[j].0, b) <= x < ceil_shr(pages[j].1, b));
                    assert(old_set.contains(x));
                } else {
                    assert(added.contains(x));
                }
            }
        }
        assert forall|x: int| (old_set + added).contains(x) implies new_set.contains(x) by {
            if old_set.contains(x) {
                let k = choose|k: int| 0 <= k < pages.len() && shr(pages[k].0, b) <= x < ceil_shr(#[trigger] pages[k].1, b);
                assert(pages.push(p)[k] == pages[k]);
            } else {
                assert(pages.push(p)[pages.len() as int] == p);
            }
        }
    }
    assert(old_set.disjoint(added));
    lemma_set_disjoint_lens(old_set, added);
}

/// Table pages that levels `j..` gain when the pages `[s, e)` are added
/// after the ranges `pages`.
pub open spec fn added_tables(pages: Seq<(int, int)>, shifts: Seq<usize>, s: int, e: int, j: int) -> int
    decreases shifts.len() - j,
{
    if j < 0 || j >= shifts.len() {
        0
    } else {
        let a = shr(s, shifts[j]);
        let c = ceil_shr(e, shifts[j]);
        let m = max_end(pages, shifts[j]);
        let lo = if a >= m { a } else { m };
        (if c > lo { c - lo } else { 0 }) + added_tables(pages, shifts, s, e, j + 1)
    }
}

proof fn lemma_added_zero(pages: Seq<(int, int)>, shifts: Seq<usize>, s: int, e: int, j: int)
    requires
        0 <= j,
        forall|i: int| j <= i < shifts.len() ==> ceil_shr(e, #[trigger] shifts[i]) <= max_end(pages, shifts[i]),
    ensures
        added_tables(pages, shifts, s, e, j) == 0,
    decreases shifts.len() - j,
{
    if j < shifts.len() {
        lemma_added_zero(pages, shifts, s, e, j + 1);
    }
}

proof fn lemma_levels_step(m: CounterModel, shifts: Seq<usize>, pages: Seq<(int, int)>, s: int, e: int, j: int)
    requires
        0 <= j <= shifts.len() <= 4,
        m.indices.len() == 4,
        widening(shifts),
        forall|i: int| j <= i < shifts.len() ==> m.indices[i] == max_end(pages, #[trigger] shifts[i]),
        forall|k: int| 0 <= k < pages.len() ==> 0 <= (#[trigger] pages[k]).0 <= s && pages[k].0 < pages[k].1,
        0 <= s < e,
    ensures
        levels_step(m, shifts, s, e, j).count == m.count + added_tables(pages, shifts, s, e, j),
        levels_step(m, shifts, s, e, j).indices.len() == 4,
        forall|i: int| 0 <= i < 4 && !(j <= i < shifts.len()) ==> #[trigger] levels_step(m, shifts, s, e, j).indices[i]
            == m.indices[i],
        forall|i: int| j <= i < shifts.len() ==> #[trigger] levels_step(m, shifts, s, e, j).indices[i]
            == max_end(pages.push((s, e)), shifts[i]),
    decreases shifts.len() - j,
{
    assert(pages.push((s, e)).drop_last() =~= pages);
    if j < shifts.len() {
        let b = shifts[j];
        let a = shr(s, b);
        let c = ceil_shr(e, b);
        let mj = max_end(pages, b);
        let st = if m.indices[j] >= a { m.indices[j] } else { a };
        lemma_nonempty_blocks(s, e, b);
        if c > st {
            let m2 = CounterModel { count: m.count + c - st, indices: m.indices.update(j, c) };
            lemma_levels_step(m2, shifts, pages, s, e, j + 1);
        } else {
            assert forall|k: int| 0 <= k < pages.len() implies 0 <= (#[trigger] pages[k]).1 by {}
            lemma_max_end(pages, b);
            let k = choose|k: int| 0 <= k < pages.len() && ceil_shr((#[trigger] pages[k]).1, b) == mj;
            assert forall|i: int| j <= i < shifts.len() implies ceil_shr(e, #[trigger] shifts[i]) <= max_end(pages, shifts[i]) by {
                if i > j {
                    assert(shifts[j] <= shifts[i]);
                }
                lemma_ceil_monotone_across(e, pages[k].1, b, shifts[i]);
                lemma_max_end(pages, shifts[i]);
            }
            lemma_added_zero(pages, shifts, s, e, j);
        }
    }
}

proof fn lemma_table_pages_push(pages: Seq<(int, int)>, shifts: Seq<usize>, p: (int, int), j: int)
    requires
        0 <= j,
        forall|k: int| 0 <= k < pages.len() ==> 0 <= (#[trigger] pages[k]).0 <= p.0,
        forall|k: int| 0 <= k < pages.len() ==> 0 <= (#[trigger] pages[k]).1,
        0 <= p.0,
    ensures
        table_pages(pages.push(p), shifts, j) == table_pages(pages, shifts, j) + added_tables(
            pages,
            shifts,
            p.0,
            p.1,
            j,
        ),
    decreases shifts.len() - j,
{
    if j < shifts.len() {
        lemma_covered_push(pages, p, shifts[j]);
        lemma_table_pages_push(pages, shifts, p, j + 1);
    }
}

proof fn lemma_insert_model(shifts: Seq<usize>, page_bits: usize, areas: Seq<(usize, usize)>)
    requires
        shifts.len() <= 4,
        widening(shifts),
        ascending(pages_of(page_bits, areas)),
    ensures
        ({
            let r = insert_model(CounterModel { count: 1, indices: seq![0int, 0int, 0int, 0int] }, shifts, page_bits, areas);
            let pages = pages_of(page_bits, areas);
            &&& r.count == 1 + data_pages(pages) + table_pages(pages, shifts, 0)
            &&& r.indices.len() == 4
            &&& forall|i: int| 0 <= i < shifts.len() ==> #[trigger] r.indices[i] == max_end(pages, shifts[i])
            &&& forall|i: int| shifts.len() <= i < 4 ==> #[trigger] r.indices[i] == 0
        }),
    decreases areas.len(),
{
    let init = CounterModel { count: 1, indices: seq![0int, 0int, 0int, 0int] };
    let pages = pages_of(page_bits, areas);
    if areas.len() == 0 {
        assert forall|i: int| 0 <= i < shifts.len() implies #[trigger] init.indices[i] == max_end(pages, shifts[i]) by {}
        assert(table_pages(pages, shifts, 0) == 0) by {
            lemma_table_pages_empty(pages, shifts, 0);
        }
    } else {
        let front = areas.drop_last();
        let q = pages_of(page_bits, front);
        assert(q =~= pages.drop_last());
        assert(pages =~= q.push(pages.last()));
        assert(ascending(q)) by {
            assert forall|k: int| 0 <= k < q.len() implies 0 <= (#[trigger] q[k]).0 < q[k].1 by {
                assert(q[k] == pages[k]);
            }
            assert forall|k: int, l: int| 0 <= k < l < q.len() implies (#[trigger] q[k]).0 <= (#[trigger] q[l]).0 by {
                assert(q[k] == pages[k]);
                assert(q[l] == pages[l]);
            }
        }
        lemma_insert_model(shifts, page_bits, front);
        let m = insert_model(init, shifts, page_bits, front);
        let last = pages.len() - 1;
        let p = pages[last];
        assert(p == area_pages(page_bits, areas.last()));
        assert forall|k: int| 0 <= k < q.len() implies 0 <= (#[trigger] q[k]).0 <= p.0 && q[k].0 < q[k].1 by {
            assert(q[k] == pages[k]);
        }
        assert forall|k: int| 0 <= k < q.len() implies 0 <= (#[trigger] q[k]).1 by {
            assert(q[k] == pages[k]);
        }
        lemma_levels_step(m, shifts, q, p.0, p.1, 0);
        lemma_table_pages_push(q, shifts, p, 0);
        assert(data_pages(pages) == data_pages(q) + (p.1 - p.0));
    }
}

proof fn lemma_table_pages_empty(pages: Seq<(int, int)>, shifts: Seq<usize>, j: int)
    requires
        pages.len() == 0,
        0 <= j,
    ensures
        table_pages(pages, shifts, j) == 0,
    decreases shifts.len() - j,
{
    if j < shifts.len() {
        assert(covered(pages, shifts[j]) =~= Set::<int>::empty());
        lemma_table_pages_empty(pages, shifts, j + 1);
    }
}

/// A fresh counter that is given address ranges in ascending order, none of
/// them empty, counts the root page table, every page of the ranges, and at
/// each level below the root one page table for each table index that maps
/// some page of the ranges.
pub proof fn law_count_is_pages_needed(shifts: Seq<usize>, page_bits: usize, areas: Seq<(usize, usize)>)
    requires
        shifts.len() <= 4,
        widening(shifts),
        ascending(pages_of(page_bits, areas)),
    ensures
        insert_model(CounterModel { count: 1, indices: seq![0int, 0int, 0int, 0int] }, shifts, page_bits, areas).count
            == 1 + data_pages(pages_of(page_bits, areas)) + table_pages(pages_of(page_bits, areas), shifts, 0),
{
    lemma_insert_model(shifts, page_bits, areas);
}

/// `(x + p * k) / p == x / p + k`.
proof fn lemma_div_add_multiple(x: int, p: int, k: int)
    requires
        p > 0,
    ensures
        (x + p * k) / p == x / p + k,
{
    lemma_fundamental_div_mod(x, p);
    let d = x / p;
    let r = x % p;
    assert(x + p * k == (d + k) * p + r) by (nonlinear_arith)
        requires x == p * d + r;
    lemma_fundamental_div_mod_converse(x + p * k, p, d + k, r);
}

/// Rounding up by `b2` bits is rounding up by `b1` bits and then by the
/// remaining `b2 - b1` bits.
proof fn lemma_ceil_nested(x: int, b1: usize, b2: usize)
    requires
        0 <= x,
        b1 <= b2,
    ensures
        ceil_shr(x, b2) == (ceil_shr(x, b1) + pow2((b2 - b1) as nat) - 1) / (pow2((b2 - b1) as nat) as int),
{
    let p = pow2(b1 as nat) as int;
    let q = pow2((b2 - b1) as nat) as int;
    lemma_pow2_pos(b1 as nat);
    lemma_pow2_pos((b2 - b1) as nat);
    lemma_pow2_adds(b1 as nat, (b2 - b1) as nat);
    assert(pow2(b2 as nat) == p * q);
    let u = (x + p - 1) / p;
    lemma_div_add_multiple(x + p - 1, p, q - 1);
    assert(x + p - 1 + p * (q - 1) == x + p * q - 1) by (nonlinear_arith);
    assert((x + p * q - 1) / p == u + q - 1);
    lemma_div_denominator(x + p * q - 1, p, q);
}

/// Rounding up by more bits keeps the order of values rounded up by fewer.
proof fn lemma_ceil_monotone_across(x: int, y: int, b1: usize, b2: usize)
    requires
        0 <= x,
        0 <= y,
        b1 <= b2,
        ceil_shr(x, b1) <= ceil_shr(y, b1),
    ensures
        ceil_shr(x, b2) <= ceil_shr(y, b2),
{
    lemma_ceil_nested(x, b1, b2);
    lemma_ceil_nested(y, b1, b2);
    let q = pow2((b2 - b1) as nat) as int;
    lemma_pow2_pos((b2 - b1) as nat);
    lemma_div_is_ordered(ceil_shr(x, b1) + q - 1, ceil_shr(y, b1) + q - 1, q);
}

/// A non-empty range of pages reaches into the block after the one where
/// it starts.
proof fn lemma_nonempty_blocks(s: int, e: int, b: usize)
    requires
        0 <= s < e,
    ensures
        shr(s, b) < ceil_shr(e, b),
        0 <= shr(s, b),
{
    let p = pow2(b as nat) as int;
    lemma_pow2_pos(b as nat);
    lemma_fundamental_div_mod(s, p);
    let d = s / p;
    let r = s % p;
    lemma_div_is_ordered(0, s, p);
    assert(e + p - 1 >= p * (d + 1)) by (nonlinear_arith)
        requires s == p * d + r, 0 <= r < p, e >= s + 1;
    lemma_div_is_ordered(p * (d + 1), e + p - 1, p);
    lemma_div_add_multiple(0, p, d + 1);
}

} // verus!
