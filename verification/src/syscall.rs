//! System call identifiers, the caller of a system call, the services a
//! kernel provides to system calls, and time values.
use vstd::prelude::*;

verus! {

/// A system call number.
#[derive(Clone, Copy, PartialEq, Eq, Structural, Debug)]
pub struct SyscallId(pub usize);

impl From<usize> for SyscallId {
    fn from(val: usize) -> (r: Self) {
        Self(val)
    }
}

impl vstd::std_specs::convert::FromSpecImpl<usize> for SyscallId {
    open spec fn obeys_from_spec() -> bool {
        true
    }

    open spec fn from_spec(v: usize) -> SyscallId {
        SyscallId(v)
    }
}

/// Number of `openat`.
pub const SYS_OPENAT: usize = 56;
/// Number of `close`.
pub const SYS_CLOSE: usize = 57;
/// Number of `read`.
pub const SYS_READ: usize = 63;
/// Number of `write`.
pub const SYS_WRITE: usize = 64;
/// Number of `exit`.
pub const SYS_EXIT: usize = 93;
/// Number of `waitid`, which waits for a thread here.
pub const SYS_WAITID: usize = 95;
/// Number of `clock_gettime`.
pub const SYS_CLOCK_GETTIME: usize = 113;
/// Number of `sched_yield`.
pub const SYS_SCHED_YIELD: usize = 124;
/// Number of `kill`.
pub const SYS_KILL: usize = 129;
/// Number of `rt_sigaction`.
pub const SYS_RT_SIGACTION: usize = 134;
/// Number of `rt_sigprocmask`.
pub const SYS_RT_SIGPROCMASK: usize = 135;
/// Number of `rt_sigreturn`.
pub const SYS_RT_SIGRETURN: usize = 139;
/// Number of `getpid`.
pub const SYS_GETPID: usize = 172;
/// Number of `gettid`.
pub const SYS_GETTID: usize = 178;
/// Number of `munmap`.
pub const SYS_MUNMAP: usize = 215;
/// Number of `clone`, which forks here.
pub const SYS_CLONE: usize = 220;
/// Number of `execve`.
pub const SYS_EXECVE: usize = 221;
/// Number of `mmap`.
pub const SYS_MMAP: usize = 222;
/// Number of `wait4`.
pub const SYS_WAIT4: usize = 260;
/// Number of creates a thread.
pub const SYS_THREAD_CREATE: usize = 1000;
/// Number of creates a mutex.
pub const SYS_MUTEX_CREATE: usize = 1010;
/// Number of locks a mutex.
pub const SYS_MUTEX_LOCK: usize = 1011;
/// Number of unlocks a mutex.
pub const SYS_MUTEX_UNLOCK: usize = 1012;
/// Number of creates a semaphore.
pub const SYS_SEMAPHORE_CREATE: usize = 1020;
/// Number of releases a semaphore.
pub const SYS_SEMAPHORE_UP: usize = 1021;
/// Number of acquires a semaphore.
pub const SYS_SEMAPHORE_DOWN: usize = 1022;
/// Number of creates a condition variable.
pub const SYS_CONDVAR_CREATE: usize = 1030;
/// Number of wakes a thread waiting on a condition variable.
pub const SYS_CONDVAR_SIGNAL: usize = 1031;
/// Number of waits on a condition variable.
pub const SYS_CONDVAR_WAIT: usize = 1032;

/// Who makes a system call.
#[derive(Clone, Copy, PartialEq, Eq, Structural, Debug)]
pub struct Caller {
    /// The resource set of the caller, a process number.
    pub entity: usize,
    /// The control flow of the caller, a thread number.
    pub flow: usize,
}

/// The result of dispatching a system call.
#[derive(Clone, Copy, PartialEq, Eq, Structural, Debug)]
pub enum SyscallResult {
    /// The call was handled and returned this value.
    Done(isize),
    /// No service handles this call.
    Unsupported(SyscallId),
}

/// Process services.
pub trait Process {
    /// Ends the calling process.
    fn exit(&self, caller: Caller, status: usize) -> isize;
    /// Forks the calling process.
    fn fork(&self, caller: Caller) -> isize;
    /// Replaces the calling process's program.
    fn exec(&self, caller: Caller, path: usize, count: usize) -> isize;
    /// Waits for a child process.
    fn wait(&self, caller: Caller, pid: isize, exit_code_ptr: usize) -> isize;
    /// The calling process's number.
    fn getpid(&self, caller: Caller) -> isize;
}

/// Input and output services.
pub trait IO {
    /// Reads from a file descriptor.
    fn read(&self, caller: Caller, fd: usize, buf: usize, count: usize) -> isize;
    /// Writes to a file descriptor.
    fn write(&self, caller: Caller, fd: usize, buf: usize, count: usize) -> isize;
    /// Opens a file.
    fn open(&self, caller: Caller, path: usize, flags: usize) -> isize;
    /// Closes a file descriptor.
    fn close(&self, caller: Caller, fd: usize) -> isize;
}

/// Memory services.
pub trait Memory {
    /// Maps memory.
    fn mmap(
        &self,
        caller: Caller,
        addr: usize,
        length: usize,
        prot: i32,
        flags: i32,
        fd: i32,
        offset: usize,
    ) -> isize;
    /// Unmaps memory.
    fn munmap(&self, caller: Caller, addr: usize, length: usize) -> isize;
}

/// Scheduling services.
pub trait Scheduling {
    /// Yields the processor.
    fn sched_yield(&self, caller: Caller) -> isize;
}

/// Clock services.
pub trait Clock {
    /// Reads a clock into the time value at `tp`.
    fn clock_gettime(&self, caller: Caller, clock_id: ClockId, tp: usize) -> isize;
}

/// Signal services.
pub trait Signal {
    /// Sends a signal to a process.
    fn kill(&self, caller: Caller, pid: isize, signum: u8) -> isize;
    /// Reads and sets the action of a signal.
    fn sigaction(&self, caller: Caller, signum: u8, action: usize, old_action: usize) -> isize;
    /// Sets the signal mask.
    fn sigprocmask(&self, caller: Caller, mask: usize) -> isize;
    /// Returns from a signal handler.
    fn sigreturn(&self, caller: Caller) -> isize;
}

/// Thread services.
pub trait Thread {
    /// Creates a thread.
    fn thread_create(&self, caller: Caller, entry: usize, arg: usize) -> isize;
    /// Waits for a thread.
    fn waittid(&self, caller: Caller, tid: usize) -> isize;
    /// The calling thread's number.
    fn gettid(&self, caller: Caller) -> isize;
}

/// Synchronisation services.
pub trait SyncMutex {
    /// Creates a semaphore.
    fn semaphore_create(&self, caller: Caller, res_count: usize) -> isize;
    /// Releases a semaphore.
    fn semaphore_up(&self, caller: Caller, sem_id: usize) -> isize;
    /// Acquires a semaphore.
    fn semaphore_down(&self, caller: Caller, sem_id: usize) -> isize;
    /// Creates a mutex.
    fn mutex_create(&self, caller: Caller, blocking: bool) -> isize;
    /// Locks a mutex.
    fn mutex_lock(&self, caller: Caller, mutex_id: usize) -> isize;
    /// Unlocks a mutex.
    fn mutex_unlock(&self, caller: Caller, mutex_id: usize) -> isize;
    /// Creates a condition variable.
    fn condvar_create(&self, caller: Caller, arg: usize) -> isize;
    /// Wakes a thread waiting on a condition variable.
    fn condvar_signal(&self, caller: Caller, condvar_id: usize) -> isize;
    /// Waits on a condition variable.
    fn condvar_wait(&self, caller: Caller, condvar_id: usize, mutex_id: usize) -> isize;
}

/// A clock identifier, as Linux numbers clocks.
#[derive(Clone, Copy, PartialEq, Eq, Structural, Debug)]
pub struct ClockId(pub usize);

/// The wall clock.
pub const CLOCK_REALTIME: usize = 0;
/// The monotonic clock.
pub const CLOCK_MONOTONIC: usize = 1;

/// Nanoseconds in a second.
pub const NSEC_PER_SEC: usize = 1_000_000_000;

/// A time value in seconds and nanoseconds.
#[derive(Clone, Copy, PartialEq, Eq, Structural, Debug)]
pub struct TimeSpec {
    /// Seconds.
    pub tv_sec: usize,
    /// Nanoseconds.
    pub tv_nsec: usize,
}

impl TimeSpec {
    /// The time value of `millsecond` milliseconds.
    pub fn from_millsecond(millsecond: usize) -> (r: Self)
        ensures
            r.tv_sec == millsecond / 1000,
            r.tv_nsec == (millsecond % 1000) * 1_000_000,
            r.tv_sec * NSEC_PER_SEC + r.tv_nsec == millsecond * 1_000_000,
    {
        proof {
            assert((millsecond / 1000) * 1000 + millsecond % 1000 == millsecond) by (nonlinear_arith);
        }
        Self { tv_sec: millsecond / 1_000, tv_nsec: millsecond % 1_000 * 1_000_000 }
    }

    /// The sum of two time values: the nanoseconds carry into the seconds
    /// once they reach one second.
    pub open spec fn spec_sum(self, rhs: TimeSpec) -> TimeSpec {
        let sec = self.tv_sec + rhs.tv_sec;
        let nsec = self.tv_nsec + rhs.tv_nsec;
        if nsec >= NSEC_PER_SEC {
            TimeSpec { tv_sec: (sec + 1) as usize, tv_nsec: (nsec - NSEC_PER_SEC) as usize }
        } else {
            TimeSpec { tv_sec: sec as usize, tv_nsec: nsec as usize }
        }
    }

    /// The sum can be computed without overflow.
    pub open spec fn sum_fits(self, rhs: TimeSpec) -> bool {
        &&& self.tv_sec + rhs.tv_sec + 1 <= usize::MAX
        &&& self.tv_nsec + rhs.tv_nsec <= usize::MAX
    }
}

impl core::ops::Add<TimeSpec> for TimeSpec {
    type Output = TimeSpec;

    fn add(self, rhs: TimeSpec) -> (r: TimeSpec)
        ensures
            r == self.spec_sum(rhs),
            self.tv_nsec < NSEC_PER_SEC && rhs.tv_nsec < NSEC_PER_SEC ==> r.tv_nsec < NSEC_PER_SEC,
    {
        let mut ans = TimeSpec { tv_sec: self.tv_sec + rhs.tv_sec, tv_nsec: self.tv_nsec + rhs.tv_nsec };
        if ans.tv_nsec >= NSEC_PER_SEC {
            ans.tv_sec += 1;
            ans.tv_nsec -= NSEC_PER_SEC;
        }
        ans
    }
}

impl vstd::std_specs::ops::AddSpecImpl<TimeSpec> for TimeSpec {
    open spec fn obeys_add_spec() -> bool {
        true
    }

    open spec fn add_req(self, rhs: TimeSpec) -> bool {
        self.sum_fits(rhs)
    }

    open spec fn add_spec(self, rhs: TimeSpec) -> TimeSpec {
        self.spec_sum(rhs)
    }
}

/// The monotonic time after `ticks` ticks of the machine timer, which runs
/// at 12.5 MHz: `ticks * 10000 / 125` nanoseconds.
pub open spec fn spec_ticks_time(ticks: usize) -> TimeSpec {
    let ns = ticks * 10000 / 125;
    TimeSpec { tv_sec: (ns / 1_000_000_000) as usize, tv_nsec: (ns % 1_000_000_000) as usize }
}

/// What `clock_gettime` reads for clock `clock_id` when the machine timer
/// shows `ticks`: the monotonic time for [`CLOCK_MONOTONIC`], nothing for
/// any other clock.
pub fn clock_time(clock_id: ClockId, ticks: usize) -> (r: Option<TimeSpec>)
    requires
        ticks * 10000 <= usize::MAX,
    ensures
        clock_id.0 == CLOCK_MONOTONIC ==> r == Some(spec_ticks_time(ticks)),
        clock_id.0 != CLOCK_MONOTONIC ==> r is None,
{
    if clock_id.0 != CLOCK_MONOTONIC {
        return None;
    }
    let ns = ticks * 10000 / 125;
    Some(TimeSpec { tv_sec: ns / 1_000_000_000, tv_nsec: ns % 1_000_000_000 })
}

/// Adding time values adds the times they stand for; and when both
/// nanosecond parts are below one second, so is the sum's.
pub proof fn law_sum_adds_time(a: TimeSpec, b: TimeSpec)
    requires
        a.sum_fits(b),
    ensures
        a.spec_sum(b).tv_sec * NSEC_PER_SEC + a.spec_sum(b).tv_nsec == (a.tv_sec * NSEC_PER_SEC
            + a.tv_nsec) + (b.tv_sec * NSEC_PER_SEC + b.tv_nsec),
        a.tv_nsec < NSEC_PER_SEC && b.tv_nsec < NSEC_PER_SEC ==> a.spec_sum(b).tv_nsec < NSEC_PER_SEC,
{
    assert((a.tv_sec + b.tv_sec + 1) * NSEC_PER_SEC == a.tv_sec * NSEC_PER_SEC + b.tv_sec * NSEC_PER_SEC
        + NSEC_PER_SEC) by (nonlinear_arith);
    assert((a.tv_sec + b.tv_sec) * NSEC_PER_SEC == a.tv_sec * NSEC_PER_SEC + b.tv_sec * NSEC_PER_SEC)
        by (nonlinear_arith);
}

} // verus!
