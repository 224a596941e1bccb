//! Thread contexts: the general registers, the program counter and the
//! privilege and interrupt settings a thread runs with.
use vstd::prelude::*;

verus! {

broadcast use vstd::array::group_array_axioms;

/// Bit of `sstatus` that selects the privilege the thread returns to.
pub const PRIVILEGE_BIT: usize = 0x100;

/// Bit of `sstatus` that enables interrupts after the return.
pub const INTERRUPT_BIT: usize = 0x20;

/// The `sstatus` value to run a thread with, computed from the current value
/// of the register: the privilege bit and the interrupt bit are set or
/// cleared as asked, every other bit is kept.
pub fn build_sstatus(current: usize, supervisor: bool, interrupt: bool) -> (r: usize)
    ensures
        r == sstatus_for(current, supervisor, interrupt),
{
    let mut sstatus = current;
    if supervisor {
        sstatus = sstatus | PRIVILEGE_BIT;
    } else {
        sstatus = sstatus & !PRIVILEGE_BIT;
    }
    if interrupt {
        sstatus = sstatus | INTERRUPT_BIT;
    } else {
        sstatus = sstatus & !INTERRUPT_BIT;
    }
    sstatus
}

/// `current` with the privilege bit and the interrupt bit set as asked.
pub open spec fn sstatus_for(current: usize, supervisor: bool, interrupt: bool) -> usize {
    let s = if supervisor { current | PRIVILEGE_BIT } else { current & !PRIVILEGE_BIT };
    if interrupt { s | INTERRUPT_BIT } else { s & !INTERRUPT_BIT }
}

/// Abstract state of a thread context.
pub struct ContextState {
    pub sctx: usize,
    pub regs: Seq<usize>,
    pub sepc: usize,
    pub supervisor: bool,
    pub interrupt: bool,
}

/// A thread context.
#[derive(Clone, Copy)]
pub struct LocalContext {
    sctx: usize,
    x: [usize; 31],
    sepc: usize,
    /// Whether the thread runs in supervisor mode.
    pub supervisor: bool,
    /// Whether interrupts are enabled while the thread runs.
    pub interrupt: bool,
}

impl View for LocalContext {
    type V = ContextState;

    closed spec fn view(&self) -> ContextState {
        ContextState {
            sctx: self.sctx,
            regs: self.x@,
            sepc: self.sepc,
            supervisor: self.supervisor,
            interrupt: self.interrupt,
        }
    }
}

/// The 31 general registers, all zero.
pub open spec fn zero_regs() -> Seq<usize> {
    Seq::new(31, |i: int| 0usize)
}

/// A context with zeroed registers entering at `pc` with the given settings.
pub open spec fn fresh_context(pc: usize, supervisor: bool, interrupt: bool) -> ContextState {
    ContextState { sctx: 0, regs: zero_regs(), sepc: pc, supervisor, interrupt }
}

impl LocalContext {
    /// Register `xn`, for `1 <= n <= 31`.
    pub open spec fn reg(&self, n: int) -> usize {
        self@.regs[n - 1]
    }

    /// A blank context.
    pub fn empty() -> (r: Self)
        ensures
            r@ == fresh_context(0, false, false),
    {
        let x = [0usize; 31];
        assert(x@ =~= zero_regs());
        Self { sctx: 0, x, supervisor: false, interrupt: false, sepc: 0 }
    }

    /// A user context entering at `pc`; interrupts are enabled once it runs.
    pub fn user(pc: usize) -> (r: Self)
        ensures
            r@ == fresh_context(pc, false, true),
    {
        let x = [0usize; 31];
        assert(x@ =~= zero_regs());
        Self { sctx: 0, x, supervisor: false, interrupt: true, sepc: pc }
    }

    /// A kernel context entering at `pc`.
    pub fn thread(pc: usize, interrupt: bool) -> (r: Self)
        ensures
            r@ == fresh_context(pc, true, interrupt),
    {
        let x = [0usize; 31];
        assert(x@ =~= zero_regs());
        Self { sctx: 0, x, supervisor: true, interrupt, sepc: pc }
    }

    /// Reads general register `xn`.
    pub fn x(&self, n: usize) -> (r: usize)
        requires
            1 <= n <= 31,
        ensures
            r == self.reg(n as int),
    {
        self.x[n - 1]
    }

    /// Gives access to general register `xn`.
    pub fn x_mut(&mut self, n: usize) -> (r: &mut usize)
        requires
            1 <= n <= 31,
        ensures
            *r == old(self).reg(n as int),
            final(self)@ == (ContextState { regs: old(self)@.regs.update(n - 1, *final(r)), ..old(self)@ }),
    {
        &mut self.x[n - 1]
    }

    /// Reads argument register `an`, that is `x(n + 10)`.
    pub fn a(&self, n: usize) -> (r: usize)
        requires
            n <= 21,
        ensures
            r == self.reg(n + 10),
    {
        self.x(n + 10)
    }

    /// Gives access to argument register `an`.
    pub fn a_mut(&mut self, n: usize) -> (r: &mut usize)
        requires
            n <= 21,
        ensures
            *r == old(self).reg(n + 10),
            final(self)@ == (ContextState { regs: old(self)@.regs.update(n + 9, *final(r)), ..old(self)@ }),
    {
        self.x_mut(n + 10)
    }

    /// The return address register.
    pub fn ra(&self) -> (r: usize)
        ensures
            r == self.reg(1),
    {
        self.x(1)
    }

    /// The stack pointer.
    pub fn sp(&self) -> (r: usize)
        ensures
            r == self.reg(2),
    {
        self.x(2)
    }

    /// Gives access to the stack pointer.
    pub fn sp_mut(&mut self) -> (r: &mut usize)
        ensures
            *r == old(self).reg(2),
            final(self)@ == (ContextState { regs: old(self)@.regs.update(1, *final(r)), ..old(self)@ }),
    {
        self.x_mut(2)
    }

    /// The program counter.
    pub fn pc(&self) -> (r: usize)
        ensures
            r == self@.sepc,
    {
        self.sepc
    }

    /// Gives access to the program counter.
    pub fn pc_mut(&mut self) -> (r: &mut usize)
        ensures
            *r == old(self)@.sepc,
            final(self)@ == (ContextState { sepc: *final(r), ..old(self)@ }),
    {
        &mut self.sepc
    }

    /// Moves the program counter past the current instruction, assumed not to
    /// be a compressed one.
    pub fn move_next(&mut self)
        ensures
            final(self)@ == (ContextState { sepc: old(self)@.sepc.wrapping_add(4), ..old(self)@ }),
    {
        self.sepc = self.sepc.wrapping_add(4);
    }
}

/// A context has the 31 general registers `x1` to `x31`.
pub broadcast proof fn lemma_register_count(c: LocalContext)
    ensures
        #[trigger] c@.regs.len() == 31,
{
}

/// A value written to general register `xn` reads back from it, and every
/// other register keeps its value: the new state [`LocalContext::x_mut`]
/// and, for `n` from 10 on, [`LocalContext::a_mut`] leave.
pub proof fn law_register_write_reads_back(c: LocalContext, n: int, v: usize)
    requires
        1 <= n <= 31,
    ensures
        c@.regs.update(n - 1, v).len() == 31,
        c@.regs.update(n - 1, v)[n - 1] == v,
        forall|m: int| 1 <= m <= 31 && m != n ==> #[trigger] c@.regs.update(n - 1, v)[m - 1] == c@.regs[m - 1],
{
    lemma_register_count(c);
}

/// The cache of a portal: what a round trip through the portal keeps for the
/// thread in the other address space, at a place mapped in both spaces.
pub struct PortalCache {
    /// `a0` of the target thread.
    pub a0: usize,
    /// `ra` of the target thread, kept by the portal code.
    pub ra: usize,
    /// `satp` of the target address space.
    pub satp: usize,
    /// `sstatus` of the target thread.
    pub sstatus: usize,
    /// `sepc` of the target thread.
    pub sepc: usize,
    /// `stvec` of the current control flow, kept by the portal code.
    pub stvec: usize,
    /// `sscratch` of the current control flow, kept by the portal code.
    pub sscratch: usize,
}

impl PortalCache {
    /// Prepares the cache for one round trip: the target address space, the
    /// entry, the first argument, and the `sstatus` built from
    /// `current_sstatus` for the requested privilege and interrupt setting.
    pub fn init(
        &mut self,
        satp: usize,
        pc: usize,
        a0: usize,
        supervisor: bool,
        interrupt: bool,
        current_sstatus: usize,
    )
        ensures
            final(self).satp == satp,
            final(self).sepc == pc,
            final(self).a0 == a0,
            final(self).sstatus == sstatus_for(current_sstatus, supervisor, interrupt),
            final(self).ra == old(self).ra,
            final(self).stvec == old(self).stvec,
            final(self).sscratch == old(self).sscratch,
    {
        self.satp = satp;
        self.sepc = pc;
        self.a0 = a0;
        self.sstatus = build_sstatus(current_sstatus, supervisor, interrupt);
    }
}

/// A portal into another address space, seen through its code entry and its
/// caches.
pub trait ForeignPortal {
    /// Address of the portal code in the shared address space.
    fn transit_entry(&self) -> usize;

    /// Cache number `key` of the portal.
    fn transit_cache(&mut self, key: usize) -> &mut PortalCache;
}

/// A portal whose code and caches lie next to each other in one object,
/// mapped readable, writable and executable in the shared address space.
pub trait MonoForeignPortal {
    /// Size in bytes of the portal object.
    fn total_size(&self) -> usize;

    /// Address of the portal object in the shared address space.
    fn transit_address(&self) -> usize;

    /// Offset of the portal code in the object.
    fn text_offset(&self) -> usize;

    /// Offset of cache number `key` in the object.
    fn cache_offset(&self, key: usize) -> usize;
}

/// A thread that runs in another address space.
#[derive(Clone, Copy)]
pub struct ForeignContext {
    /// The thread's context in its own address space.
    pub context: LocalContext,
    /// The thread's address space.
    pub satp: usize,
}

/// What entering a portal changed on a foreign context, to undo on return.
#[derive(Clone, Copy)]
pub struct PortalVisit {
    /// The thread's own privilege setting.
    pub supervisor: bool,
    /// The thread's own interrupt setting.
    pub interrupt: bool,
}

impl ForeignContext {
    /// The steps before running the thread through a portal: the portal code
    /// runs privileged with interrupts off, the cache receives the thread's
    /// address space, entry, `a0` and `sstatus`, and the context is redirected
    /// to the portal code at `entry` with `a0` pointing to the cache.
    pub fn enter_portal(
        &mut self,
        entry: usize,
        cache: &mut PortalCache,
        cache_address: usize,
        current_sstatus: usize,
    ) -> (visit: PortalVisit)
        ensures
            visit.supervisor == old(self).context@.supervisor,
            visit.interrupt == old(self).context@.interrupt,
            final(cache).satp == old(self).satp,
            final(cache).sepc == old(self).context@.sepc,
            final(cache).a0 == old(self).context.reg(10),
            final(cache).sstatus == sstatus_for(
                current_sstatus,
                old(self).context@.supervisor,
                old(self).context@.interrupt,
            ),
            final(cache).ra == old(cache).ra,
            final(cache).stvec == old(cache).stvec,
            final(cache).sscratch == old(cache).sscratch,
            final(self).satp == old(self).satp,
            final(self).context@ == (ContextState {
                sepc: entry,
                regs: old(self).context@.regs.update(9, cache_address),
                supervisor: true,
                interrupt: false,
                ..old(self).context@
            }),
    {
        let supervisor = self.context.supervisor;
        let interrupt = self.context.interrupt;
        self.context.supervisor = true;
        self.context.interrupt = false;
        let a0 = self.context.a(0);
        cache.init(self.satp, self.context.sepc, a0, supervisor, interrupt, current_sstatus);
        self.context.sepc = entry;
        self.context.x[9] = cache_address;
        PortalVisit { supervisor, interrupt }
    }

    /// The steps after the thread came back through the portal: its own
    /// privilege and interrupt settings return and `a0` is read back from the
    /// cache.
    pub fn leave_portal(&mut self, visit: PortalVisit, cache: &PortalCache)
        ensures
            final(self).satp == old(self).satp,
            final(self).context@ == (ContextState {
                regs: old(self).context@.regs.update(9, cache.a0),
                supervisor: visit.supervisor,
                interrupt: visit.interrupt,
                ..old(self).context@
            }),
    {
        self.context.supervisor = visit.supervisor;
        self.context.interrupt = visit.interrupt;
        self.context.x[9] = cache.a0;
    }
}

/// The code of a portal, as the instruction halfwords found at run time.
pub struct PortalText(pub Vec<u16>);

/// Bytes in a machine word.
pub open spec fn word_bytes() -> int {
    (usize::BITS / 8) as int
}

impl PortalText {
    /// Size in bytes of the code, rounded up to whole machine words.
    pub fn aligned_size(&self) -> (r: usize)
        requires
            self.0@.len() * 2 + 8 <= usize::MAX,
        ensures
            r == (self.0@.len() * 2 + word_bytes() - 1) / word_bytes() * word_bytes(),
            (r as int) % word_bytes() == 0,
            self.0@.len() * 2 <= r < self.0@.len() * 2 + word_bytes(),
    {
        let word: usize = (usize::BITS / 8) as usize;
        let bytes = self.0.len() * 2;
        let sum = bytes + (word - 1);
        let q = sum / word;
        proof {
            assert(word == 4 || word == 8);
            lemma_round_up(bytes as int, word as int);
        }
        q * word
    }
}

/// Whether the first `n` halfwords of `code` end with `end`.
pub open spec fn ends_with_at(code: Seq<u16>, end: Seq<u16>, n: int) -> bool {
    end.len() <= n <= code.len() && code.subrange(n - end.len(), n) == end
}

/// Whether the first `n` halfwords of `code` end with `end`.
fn prefix_ends_with(code: &[u16], end: &[u16], n: usize) -> (r: bool)
    ensures
        r == ends_with_at(code@, end@, n as int),
{
    if n < end.len() || n > code.len() {
        return false;
    }
    let start = n - end.len();
    let mut i: usize = 0;
    while i < end.len()
        invariant
            i <= end@.len(),
            start + end@.len() == n <= code@.len(),
            forall|j: int| 0 <= j < i ==> code@[start + j] == end@[j],
        decreases end@.len() - i,
    {
        if code[start + i] != end[i] {
            assert(code@.subrange(start as int, n as int)[i as int] != end@[i as int]);
            return false;
        }
        i += 1;
    }
    assert(code@.subrange(start as int, n as int) =~= end@);
    true
}

/// The length, in halfwords, of the function whose code starts `code` and
/// ends with the halfwords `end`: the shortest prefix of at least `min`
/// halfwords that ends with `end`, or `None` when no prefix of `code` does.
/// This is how the portal code (`min` of 32, ending with `jr a0` and a zero)
/// and the routines copied into the transit kernel are found at run time.
pub fn code_length(code: &[u16], end: &[u16], min: usize) -> (r: Option<usize>)
    ensures
        r matches Some(n) ==> min <= n && ends_with_at(code@, end@, n as int) && forall|m: int|
            min <= m < n ==> !#[trigger] ends_with_at(code@, end@, m),
        r is None ==> forall|m: int| min <= m ==> !#[trigger] ends_with_at(code@, end@, m),
{
    if min > code.len() {
        return None;
    }
    let mut n: usize = min;
    loop
        invariant
            min <= n <= code@.len(),
            forall|m: int| min <= m < n ==> !#[trigger] ends_with_at(code@, end@, m),
        decreases code@.len() - n,
    {
        if prefix_ends_with(code, end, n) {
            return Some(n);
        }
        if n == code.len() {
            return None;
        }
        n += 1;
    }
}

/// Last halfwords of the portal code: `jr a0` and the zero after it.
pub const PORTAL_END_JR_A0: u16 = 0x8502;
/// Fewest halfwords the portal code can have.
pub const PORTAL_MIN_LEN: usize = 32;

/// The halfwords that end the portal code.
pub open spec fn portal_end() -> Seq<u16> {
    seq![PORTAL_END_JR_A0, 0u16]
}

impl PortalText {
    /// The portal code at the start of `code`: its first halfwords up to the
    /// first `jr a0` followed by a zero, at least [`PORTAL_MIN_LEN`]
    /// halfwords long; `None` when `code` holds no such end.
    pub fn locate(code: &[u16]) -> (r: Option<PortalText>)
        ensures
            r matches Some(t) ==> exists|n: int|
                PORTAL_MIN_LEN <= n && ends_with_at(code@, portal_end(), n) && t.0@
                    == code@.take(n) && forall|m: int|
                    PORTAL_MIN_LEN <= m < n ==> !#[trigger] ends_with_at(code@, portal_end(), m),
            r is None ==> forall|m: int|
                PORTAL_MIN_LEN <= m ==> !#[trigger] ends_with_at(code@, portal_end(), m),
    {
        let end: [u16; 2] = [PORTAL_END_JR_A0, 0];
        assert(end@ =~= portal_end());
        match code_length(code, &end, PORTAL_MIN_LEN) {
            Some(n) => {
                let mut text: Vec<u16> = Vec::new();
                let mut i: usize = 0;
                while i < n
                    invariant
                        i <= n <= code@.len(),
                        text@ == code@.take(i as int),
                    decreases n - i,
                {
                    text.push(code[i]);
                    i += 1;
                    assert(text@ =~= code@.take(i as int));
                }
                Some(PortalText(text))
            },
            None => None,
        }
    }
}

proof fn lemma_round_up(bytes: int, word: int)
    requires
        0 <= bytes,
        word > 0,
    ensures
        ((bytes + word - 1) / word) * word <= bytes + word - 1,
        (((bytes + word - 1) / word) * word) % word == 0,
        bytes <= ((bytes + word - 1) / word) * word < bytes + word,
{
    let q = (bytes + word - 1) / word;
    let rem = (bytes + word - 1) % word;
    assert(bytes + word - 1 == q * word + rem && 0 <= rem < word) by (nonlinear_arith)
        requires word > 0, q == (bytes + word - 1) / word, rem == (bytes + word - 1) % word;
    assert((q * word) % word == 0) by (nonlinear_arith)
        requires word > 0;
}

} // verus!
