//! The layout of a transit kernel and of a portal object: structures placed
//! in memory mapped into every address space, through which control passes
//! between address spaces.
use crate::context::{code_length, ends_with_at, LocalContext};
use vstd::prelude::*;

verus! {

broadcast use vstd::array::group_array_axioms;

/// A task in another address space, as the transit kernel keeps it.
pub struct ForeignContext {
    /// The `satp` value that selects the task's address space.
    pub satp: usize,
    /// The task's context.
    pub context: LocalContext,
}

/// Words of code copied into the transit kernel for each routine.
pub const TRANSIT_CODE_WORDS: usize = 128;

/// The layout of the transit kernel.
pub struct TransitKernel {
    /// The shared task context.
    pub shared_context: ForeignContext,
    /// Copy of the routine that enters a task: 512 bytes, 4-byte aligned.
    pub execute_copy: [u32; TRANSIT_CODE_WORDS],
    /// Copy of the trap routine: 512 bytes, 4-byte aligned.
    pub trap_copy: [u32; TRANSIT_CODE_WORDS],
}

impl TransitKernel {
    /// A blank transit kernel: no address space, a blank context and no code.
    pub fn new() -> (r: Self)
        ensures
            r.shared_context.satp == 0,
            r.shared_context.context@ == crate::context::fresh_context(0, false, false),
            forall|i: int| 0 <= i < TRANSIT_CODE_WORDS ==> #[trigger] r.execute_copy@[i] == 0,
            forall|i: int| 0 <= i < TRANSIT_CODE_WORDS ==> #[trigger] r.trap_copy@[i] == 0,
    {
        TransitKernel {
            shared_context: ForeignContext { satp: 0, context: LocalContext::empty() },
            execute_copy: [0u32; TRANSIT_CODE_WORDS],
            trap_copy: [0u32; TRANSIT_CODE_WORDS],
        }
    }
}

/// Words of code in a portal object.
pub const PORTAL_CODE_WORDS: usize = 1024;

/// A portal object: the registers kept across one round trip and the portal
/// code, laid out as the portal code expects.
pub struct ForeignPortal {
    /// `a0` of the target control flow.
    pub a0: usize,
    /// `ra` of the target control flow.
    pub ra: usize,
    /// `satp` of the target control flow.
    pub satp: usize,
    /// `ra` of the current control flow.
    pub ra_: usize,
    /// `stvec` of the current control flow.
    pub stvec: usize,
    /// `sscratch` of the current control flow.
    pub sscratch: usize,
    /// The portal code.
    pub execute: [usize; PORTAL_CODE_WORDS],
}


/// The halfword `j` of a routine copied into `words`, two halfwords to a
/// word, the lower one first.
pub open spec fn halfword_at(words: Seq<u32>, j: int) -> u32 {
    if j % 2 == 0 {
        words[j / 2] & 0xffff
    } else {
        words[j / 2] >> 16
    }
}

/// Whether `words` holds the first `n` halfwords of `code`, then zeros.
pub open spec fn holds_routine(words: Seq<u32>, code: Seq<u16>, n: int) -> bool {
    &&& words.len() == TRANSIT_CODE_WORDS
    &&& forall|j: int| 0 <= j < 2 * TRANSIT_CODE_WORDS ==> #[trigger] halfword_at(words, j) == (if j < n {
        code[j] as u32
    } else {
        0u32
    })
}

/// `sret` and `unimp`, the end of the routine that enters a task.
pub open spec fn execute_end() -> Seq<u16> {
    seq![0x0073u16, 0x1020u16, 0x0000u16]
}

/// `ret` and `unimp`, the end of the trap routine.
pub open spec fn trap_end() -> Seq<u16> {
    seq![0x8082u16, 0x0000u16]
}

/// The length, in halfwords, of a routine found at run time: the shortest
/// prefix of `code` longer than `end` that ends with `end`.
pub open spec fn routine_length(code: Seq<u16>, end: Seq<u16>, n: int) -> bool {
    &&& end.len() + 1 <= n
    &&& ends_with_at(code, end, n)
    &&& forall|m: int| end.len() + 1 <= m < n ==> !#[trigger] ends_with_at(code, end, m)
}

proof fn lemma_pack(lo: u16, hi: u16)
    ensures
        ((lo as u32) | ((hi as u32) << 16u32)) & 0xffff == lo as u32,
        ((lo as u32) | ((hi as u32) << 16u32)) >> 16u32 == hi as u32,
{
    assert(((lo as u32) | ((hi as u32) << 16u32)) & 0xffff == lo as u32) by (bit_vector);
    assert(((lo as u32) | ((hi as u32) << 16u32)) >> 16u32 == hi as u32) by (bit_vector);
}

/// The first `n` halfwords of `code`, two to a word, then zeros.
fn pack_routine(code: &[u16], n: usize) -> (r: [u32; TRANSIT_CODE_WORDS])
    requires
        n <= code@.len(),
        n <= 2 * TRANSIT_CODE_WORDS,
    ensures
        holds_routine(r@, code@, n as int),
{
    let mut words = [0u32; TRANSIT_CODE_WORDS];
    let mut i: usize = 0;
    while i < TRANSIT_CODE_WORDS
        invariant
            i <= TRANSIT_CODE_WORDS,
            n <= code@.len(),
            n <= 2 * TRANSIT_CODE_WORDS,
            words@.len() == TRANSIT_CODE_WORDS,
            forall|j: int| 0 <= j < 2 * i ==> #[trigger] halfword_at(words@, j) == (if j < n {
                code@[j] as u32
            } else {
                0u32
            }),
            forall|k: int| i <= k < TRANSIT_CODE_WORDS ==> words@[k] == 0u32,
        decreases TRANSIT_CODE_WORDS - i,
    {
        let lo: u16 = if 2 * i < n { code[2 * i] } else { 0 };
        let hi: u16 = if 2 * i + 1 < n { code[2 * i + 1] } else { 0 };
        let ghost before = words@;
        words[i] = (lo as u32) | ((hi as u32) << 16);
        proof {
            lemma_pack(lo, hi);
            assert(words@ == before.update(i as int, (lo as u32) | ((hi as u32) << 16u32)));
            assert forall|j: int| 0 <= j < 2 * (i + 1) implies #[trigger] halfword_at(words@, j) == (if j < n {
                code@[j] as u32
            } else {
                0u32
            }) by {
                if j < 2 * i {
                    assert(words@[j / 2] == before[j / 2]);
                    assert(halfword_at(words@, j) == halfword_at(before, j));
                } else if j == 2 * i {
                    assert(j % 2 == 0 && j / 2 == i);
                    assert(halfword_at(words@, j) == lo as u32);
                } else {
                    assert(j % 2 == 1 && j / 2 == i);
                    assert(halfword_at(words@, j) == hi as u32);
                }
            }
        }
        i += 1;
    }
    words
}

impl TransitKernel {
    /// Copies the routine that enters a task and the trap routine into the
    /// transit kernel. Each is found at the start of the code given for it
    /// by its end, `sret; unimp` and `ret; unimp`; `false`, with nothing
    /// copied, when one of them is not found or does not fit the
    /// [`TRANSIT_CODE_WORDS`] words kept for it.
    pub fn init(&mut self, execute_code: &[u16], trap_code: &[u16]) -> (r: bool)
        ensures
            r == (exists|a: int, b: int|
                routine_length(execute_code@, execute_end(), a) && a <= 2 * TRANSIT_CODE_WORDS
                    && routine_length(trap_code@, trap_end(), b) && b <= 2 * TRANSIT_CODE_WORDS),
            r ==> exists|a: int, b: int|
                routine_length(execute_code@, execute_end(), a) && routine_length(trap_code@, trap_end(), b)
                    && holds_routine(final(self).execute_copy@, execute_code@, a) && holds_routine(
                    final(self).trap_copy@,
                    trap_code@,
                    b,
                ),
            r ==> final(self).shared_context == old(self).shared_context,
            !r ==> *final(self) == *old(self),
    {
        let execute_key: [u16; 3] = [0x0073, 0x1020, 0x0000];
        let trap_key: [u16; 2] = [0x8082, 0x0000];
        assert(execute_key@ =~= execute_end());
        assert(trap_key@ =~= trap_end());
        let a = match code_length(execute_code, &execute_key, 4) {
            Some(a) => a,
            None => return false,
        };
        let b = match code_length(trap_code, &trap_key, 3) {
            Some(b) => b,
            None => {
                proof {
                    assert forall|x: int, y: int|
                        routine_length(execute_code@, execute_end(), x) && routine_length(trap_code@, trap_end(), y)
                        implies false by {
                        assert(!ends_with_at(trap_code@, trap_end(), y));
                    }
                }
                return false;
            },
        };
        proof {
            assert forall|x: int| routine_length(execute_code@, execute_end(), x) implies x == a by {
                if x < a {
                    assert(!ends_with_at(execute_code@, execute_end(), x));
                }
                if a < x {
                    assert(!ends_with_at(execute_code@, execute_end(), a as int));
                }
            }
            assert forall|y: int| routine_length(trap_code@, trap_end(), y) implies y == b by {
                if y < b {
                    assert(!ends_with_at(trap_code@, trap_end(), y));
                }
                if b < y {
                    assert(!ends_with_at(trap_code@, trap_end(), b as int));
                }
            }
            assert(routine_length(execute_code@, execute_end(), a as int));
            assert(routine_length(trap_code@, trap_end(), b as int));
        }
        if a > 2 * TRANSIT_CODE_WORDS || b > 2 * TRANSIT_CODE_WORDS {
            return false;
        }
        self.execute_copy = pack_routine(execute_code, a);
        self.trap_copy = pack_routine(trap_code, b);
        true
    }
}

} // verus!
