//! Signal numbers, signal actions, the outcome of signal handling and sets
//! of signals kept as bit masks.
use vstd::prelude::*;

verus! {

/// Largest signal number a process can receive.
pub const MAX_SIG: usize = 31;

/// Hangup.
pub const SIGHUP: usize = 1;
/// Interrupt from the keyboard.
pub const SIGINT: usize = 2;
/// Kill; can be neither caught nor ignored.
pub const SIGKILL: usize = 9;
/// User-defined signal 1.
pub const SIGUSR1: usize = 10;
/// Invalid memory reference.
pub const SIGSEGV: usize = 11;
/// User-defined signal 2.
pub const SIGUSR2: usize = 12;
/// Child stopped or terminated.
pub const SIGCHLD: usize = 17;
/// Continue if stopped.
pub const SIGCONT: usize = 18;
/// Stop the process; can be neither caught nor ignored.
pub const SIGSTOP: usize = 19;
/// Urgent condition on a socket.
pub const SIGURG: usize = 23;

/// How a process handles one signal.
#[derive(Clone, Copy, PartialEq, Eq, Structural, Debug)]
pub struct SignalAction {
    /// Address of the handler.
    pub handler: usize,
    /// Signals masked while the handler runs.
    pub mask: i32,
}

impl SignalAction {
    /// The action of a signal that has none set.
    pub open spec fn spec_default() -> SignalAction {
        SignalAction { handler: 0, mask: 40 }
    }
}

impl Default for SignalAction {
    fn default() -> (r: Self)
        ensures
            r == SignalAction::spec_default(),
    {
        Self { handler: 0, mask: 40 }
    }
}

/// What handling signals decided for the process.
#[derive(Clone, Copy, PartialEq, Eq, Structural, Debug)]
pub enum SignalResult {
    /// No signal is pending.
    NoSignal,
    /// A user handler is still running.
    IsHandlingSignal,
    /// The signal was ignored.
    Ignored,
    /// The signal was handled, or a user handler was set up to run.
    Handled,
    /// The process must end with the given exit code.
    ProcessKilled(i32),
    /// The process must stay suspended.
    ProcessSuspended,
}

/// A set of signals as a bit mask: bit `k` stands for signal `k`.
#[derive(Clone, Copy, PartialEq, Eq, Structural, Debug)]
pub struct SignalSet(pub usize);

/// Whether bit `k` of `x` is set.
pub open spec fn has_bit(x: usize, k: int) -> bool {
    0 <= k < usize::BITS && (x >> (k as usize)) & 1usize == 1usize
}

proof fn lemma_bit_after_or(x: usize, k: usize, j: usize)
    requires
        k < usize::BITS,
        j < usize::BITS,
    ensures
        ((x | (1usize << k)) >> j) & 1usize == (if j == k { 1usize } else { (x >> j) & 1usize }),
{
    assert(((x | (1usize << k)) >> j) & 1usize == (if j == k { 1usize } else { (x >> j) & 1usize }))
        by (bit_vector)
        requires k < usize::BITS, j < usize::BITS;
}

proof fn lemma_bit_after_clear(x: usize, k: usize, j: usize)
    requires
        k < usize::BITS,
        j < usize::BITS,
    ensures
        ((x & !(1usize << k)) >> j) & 1usize == (if j == k { 0usize } else { (x >> j) & 1usize }),
{
    assert(((x & !(1usize << k)) >> j) & 1usize == (if j == k { 0usize } else { (x >> j) & 1usize }))
        by (bit_vector)
        requires k < usize::BITS, j < usize::BITS;
}

proof fn lemma_bit_value(x: usize, j: usize)
    ensures
        (x >> j) & 1usize == 0usize || (x >> j) & 1usize == 1usize,
{
    assert((x >> j) & 1usize == 0usize || (x >> j) & 1usize == 1usize) by (bit_vector);
}

impl SignalSet {
    /// Whether signal `k` is in the set.
    pub open spec fn contains(self, k: int) -> bool {
        has_bit(self.0, k)
    }

    /// The lowest signal in `self` and not in `mask`.
    pub open spec fn first_outside(self, mask: SignalSet, k: int) -> bool {
        &&& self.contains(k)
        &&& !mask.contains(k)
        &&& forall|j: int| 0 <= j < k ==> !(#[trigger] self.contains(j) && !mask.contains(j))
    }

    /// Whether some signal of `self` is not in `mask`.
    pub open spec fn has_outside(self, mask: SignalSet) -> bool {
        exists|k: int| #[trigger] self.contains(k) && !mask.contains(k)
    }

    /// The empty set.
    pub fn empty() -> (r: Self)
        ensures
            r.0 == 0,
            forall|k: int| !(#[trigger] r.contains(k)),
    {
        let r = SignalSet(0);
        assert forall|k: int| !(#[trigger] r.contains(k)) by {
            if 0 <= k < usize::BITS {
                let kk = k as usize;
                assert((0usize >> kk) & 1usize == 0usize) by (bit_vector);
            }
        }
        r
    }

    /// Whether signal `k` is in the set.
    pub fn contain_bit(&self, k: usize) -> (r: bool)
        requires
            k < usize::BITS,
        ensures
            r == self.contains(k as int),
    {
        proof {
            lemma_bit_value(self.0, k);
        }
        (self.0 >> k) & 1 == 1
    }

    /// Adds signal `k`.
    pub fn add_bit(&mut self, k: usize)
        requires
            k < usize::BITS,
        ensures
            final(self).0 == old(self).0 | (1usize << k),
            forall|j: int| #[trigger] final(self).contains(j) == (old(self).contains(j) || j == k),
    {
        let ghost x = self.0;
        self.0 = self.0 | (1usize << k);
        proof {
            assert forall|j: int| #[trigger] self.contains(j) == (SignalSet(x).contains(j) || j == k) by {
                if 0 <= j < usize::BITS {
                    lemma_bit_after_or(x, k, j as usize);
                    lemma_bit_value(x, j as usize);
                }
            }
        }
    }

    /// Removes signal `k`.
    pub fn remove_bit(&mut self, k: usize)
        requires
            k < usize::BITS,
        ensures
            final(self).0 == old(self).0 & !(1usize << k),
            forall|j: int| #[trigger] final(self).contains(j) == (old(self).contains(j) && j != k),
    {
        let ghost x = self.0;
        self.0 = self.0 & !(1usize << k);
        proof {
            assert forall|j: int| #[trigger] self.contains(j) == (SignalSet(x).contains(j) && j != k) by {
                if 0 <= j < usize::BITS {
                    lemma_bit_after_clear(x, k, j as usize);
                    lemma_bit_value(x, j as usize);
                }
            }
        }
    }

    /// The lowest signal in the set and not in `mask`, if any.
    pub fn find_first_one(&self, mask: SignalSet) -> (r: Option<usize>)
        ensures
            r matches Some(k) ==> self.first_outside(mask, k as int),
            r is None <==> !self.has_outside(mask),
    {
        let mut k: usize = 0;
        while k < usize::BITS as usize
            invariant
                k <= usize::BITS,
                forall|j: int| 0 <= j < k ==> !(#[trigger] self.contains(j) && !mask.contains(j)),
            decreases usize::BITS - k,
        {
            if self.contain_bit(k) && !mask.contain_bit(k) {
                return Some(k);
            }
            k += 1;
        }
        None
    }

    /// Replaces the set by `new` and returns the former bits.
    pub fn set_new(&mut self, new: SignalSet) -> (old_bits: usize)
        ensures
            old_bits == old(self).0,
            *final(self) == new,
    {
        let old_bits = self.0;
        *self = new;
        old_bits
    }
}

} // verus!
