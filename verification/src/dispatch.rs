//! Decoding a system call: which service handles a call number and with
//! which arguments, taken from the six argument registers.
use crate::syscall::{ClockId, SyscallId, SyscallResult, SYS_CLOCK_GETTIME, SYS_CLONE, SYS_CLOSE, SYS_CONDVAR_CREATE, SYS_CONDVAR_SIGNAL, SYS_CONDVAR_WAIT, SYS_EXECVE, SYS_EXIT, SYS_GETPID, SYS_GETTID, SYS_KILL, SYS_MMAP, SYS_MUNMAP, SYS_MUTEX_CREATE, SYS_MUTEX_LOCK, SYS_MUTEX_UNLOCK, SYS_OPENAT, SYS_READ, SYS_RT_SIGACTION, SYS_RT_SIGPROCMASK, SYS_RT_SIGRETURN, SYS_SCHED_YIELD, SYS_SEMAPHORE_CREATE, SYS_SEMAPHORE_DOWN, SYS_SEMAPHORE_UP, SYS_THREAD_CREATE, SYS_WAIT4, SYS_WAITID, SYS_WRITE};
use vstd::prelude::*;

verus! {

/// A decoded system call: the service method to call and its arguments.
#[derive(Clone, Copy, PartialEq, Eq, Structural, Debug)]
pub enum Request {
    Write { fd: usize, buf: usize, count: usize },
    Read { fd: usize, buf: usize, count: usize },
    Open { path: usize, flags: usize },
    Close { fd: usize },
    Exit { status: usize },
    Fork,
    Exec { path: usize, count: usize },
    Wait { pid: isize, exit_code_ptr: usize },
    GetPid,
    ClockGettime { clock_id: ClockId, tp: usize },
    SchedYield,
    Munmap { addr: usize, length: usize },
    Mmap { addr: usize, length: usize, prot: i32, flags: i32, fd: i32, offset: usize },
    Kill { pid: isize, signum: u8 },
    Sigaction { signum: u8, action: usize, old_action: usize },
    Sigprocmask { mask: usize },
    Sigreturn,
    Waittid { tid: usize },
    Gettid,
    ThreadCreate { entry: usize, arg: usize },
    SemaphoreCreate { res_count: usize },
    SemaphoreUp { sem_id: usize },
    SemaphoreDown { sem_id: usize },
    MutexCreate { blocking: bool },
    MutexLock { mutex_id: usize },
    MutexUnlock { mutex_id: usize },
    CondvarCreate { arg: usize },
    CondvarSignal { condvar_id: usize },
    CondvarWait { condvar_id: usize, mutex_id: usize },
}

/// The service that answers a request.
#[derive(Clone, Copy, PartialEq, Eq, Structural, Debug)]
pub enum Service {
    Process,
    IO,
    Memory,
    Scheduling,
    Clock,
    Signal,
    Thread,
    SyncMutex,
}

/// The request that call number `id` makes with argument registers `a`, or
/// `None` when no service handles that number.
pub open spec fn spec_route(id: usize, a: Seq<usize>) -> Option<Request> {
    if id == SYS_WRITE {
        Some(Request::Write { fd: a[0], buf: a[1], count: a[2] })
    } else if id == SYS_READ {
        Some(Request::Read { fd: a[0], buf: a[1], count: a[2] })
    } else if id == SYS_OPENAT {
        Some(Request::Open { path: a[0], flags: a[1] })
    } else if id == SYS_CLOSE {
        Some(Request::Close { fd: a[0] })
    } else if id == SYS_EXIT {
        Some(Request::Exit { status: a[0] })
    } else if id == SYS_CLONE {
        Some(Request::Fork)
    } else if id == SYS_EXECVE {
        Some(Request::Exec { path: a[0], count: a[1] })
    } else if id == SYS_WAIT4 {
        Some(Request::Wait { pid: a[0] as isize, exit_code_ptr: a[1] })
    } else if id == SYS_GETPID {
        Some(Request::GetPid)
    } else if id == SYS_CLOCK_GETTIME {
        Some(Request::ClockGettime { clock_id: ClockId(a[0]), tp: a[1] })
    } else if id == SYS_SCHED_YIELD {
        Some(Request::SchedYield)
    } else if id == SYS_MUNMAP {
        Some(Request::Munmap { addr: a[0], length: a[1] })
    } else if id == SYS_MMAP {
        Some(
            Request::Mmap {
                addr: a[0],
                length: a[1],
                prot: a[2] as i32,
                flags: a[3] as i32,
                fd: a[4] as i32,
                offset: a[5],
            },
        )
    } else if id == SYS_KILL {
        Some(Request::Kill { pid: a[0] as isize, signum: a[1] as u8 })
    } else if id == SYS_RT_SIGACTION {
        Some(Request::Sigaction { signum: a[0] as u8, action: a[1], old_action: a[2] })
    } else if id == SYS_RT_SIGPROCMASK {
        Some(Request::Sigprocmask { mask: a[0] })
    } else if id == SYS_RT_SIGRETURN {
        Some(Request::Sigreturn)
    } else if id == SYS_WAITID {
        Some(Request::Waittid { tid: a[0] })
    } else if id == SYS_GETTID {
        Some(Request::Gettid)
    } else if id == SYS_THREAD_CREATE {
        Some(Request::ThreadCreate { entry: a[0], arg: a[1] })
    } else if id == SYS_SEMAPHORE_CREATE {
        Some(Request::SemaphoreCreate { res_count: a[0] })
    } else if id == SYS_SEMAPHORE_UP {
        Some(Request::SemaphoreUp { sem_id: a[0] })
    } else if id == SYS_SEMAPHORE_DOWN {
        Some(Request::SemaphoreDown { sem_id: a[0] })
    } else if id == SYS_MUTEX_CREATE {
        Some(Request::MutexCreate { blocking: a[0] != 0 })
    } else if id == SYS_MUTEX_LOCK {
        Some(Request::MutexLock { mutex_id: a[0] })
    } else if id == SYS_MUTEX_UNLOCK {
        Some(Request::MutexUnlock { mutex_id: a[0] })
    } else if id == SYS_CONDVAR_CREATE {
        Some(Request::CondvarCreate { arg: a[0] })
    } else if id == SYS_CONDVAR_SIGNAL {
        Some(Request::CondvarSignal { condvar_id: a[0] })
    } else if id == SYS_CONDVAR_WAIT {
        Some(Request::CondvarWait { condvar_id: a[0], mutex_id: a[1] })
    } else {
        None
    }
}

/// The service that answers request `r`.
pub open spec fn spec_service(r: Request) -> Service {
    match r {
        Request::Write { .. } | Request::Read { .. } | Request::Open { .. } | Request::Close { .. } => Service::IO,
        Request::Exit { .. } | Request::Fork | Request::Exec { .. } | Request::Wait { .. } | Request::GetPid => Service::Process,
        Request::ClockGettime { .. } => Service::Clock,
        Request::SchedYield => Service::Scheduling,
        Request::Munmap { .. } | Request::Mmap { .. } => Service::Memory,
        Request::Kill { .. } | Request::Sigaction { .. } | Request::Sigprocmask { .. } | Request::Sigreturn => Service::Signal,
        Request::Waittid { .. } | Request::Gettid | Request::ThreadCreate { .. } => Service::Thread,
        _ => Service::SyncMutex,
    }
}

/// Decodes call number `id` with argument registers `args`: the request it
/// makes, or `None` when no service handles that number.
pub fn route(id: SyscallId, args: [usize; 6]) -> (r: Option<Request>)
    ensures
        r == spec_route(id.0, args@),
{
    let a = args;
    let n = id.0;
    if n == SYS_WRITE {
        Some(Request::Write { fd: a[0], buf: a[1], count: a[2] })
    } else if n == SYS_READ {
        Some(Request::Read { fd: a[0], buf: a[1], count: a[2] })
    } else if n == SYS_OPENAT {
        Some(Request::Open { path: a[0], flags: a[1] })
    } else if n == SYS_CLOSE {
        Some(Request::Close { fd: a[0] })
    } else if n == SYS_EXIT {
        Some(Request::Exit { status: a[0] })
    } else if n == SYS_CLONE {
        Some(Request::Fork)
    } else if n == SYS_EXECVE {
        Some(Request::Exec { path: a[0], count: a[1] })
    } else if n == SYS_WAIT4 {
        Some(Request::Wait { pid: a[0] as isize, exit_code_ptr: a[1] })
    } else if n == SYS_GETPID {
        Some(Request::GetPid)
    } else if n == SYS_CLOCK_GETTIME {
        Some(Request::ClockGettime { clock_id: ClockId(a[0]), tp: a[1] })
    } else if n == SYS_SCHED_YIELD {
        Some(Request::SchedYield)
    } else if n == SYS_MUNMAP {
        Some(Request::Munmap { addr: a[0], length: a[1] })
    } else if n == SYS_MMAP {
        Some(
            Request::Mmap {
                addr: a[0],
                length: a[1],
                prot: a[2] as i32,
                flags: a[3] as i32,
                fd: a[4] as i32,
                offset: a[5],
            },
        )
    } else if n == SYS_KILL {
        Some(Request::Kill { pid: a[0] as isize, signum: a[1] as u8 })
    } else if n == SYS_RT_SIGACTION {
        Some(Request::Sigaction { signum: a[0] as u8, action: a[1], old_action: a[2] })
    } else if n == SYS_RT_SIGPROCMASK {
        Some(Request::Sigprocmask { mask: a[0] })
    } else if n == SYS_RT_SIGRETURN {
        Some(Request::Sigreturn)
    } else if n == SYS_WAITID {
        Some(Request::Waittid { tid: a[0] })
    } else if n == SYS_GETTID {
        Some(Request::Gettid)
    } else if n == SYS_THREAD_CREATE {
        Some(Request::ThreadCreate { entry: a[0], arg: a[1] })
    } else if n == SYS_SEMAPHORE_CREATE {
        Some(Request::SemaphoreCreate { res_count: a[0] })
    } else if n == SYS_SEMAPHORE_UP {
        Some(Request::SemaphoreUp { sem_id: a[0] })
    } else if n == SYS_SEMAPHORE_DOWN {
        Some(Request::SemaphoreDown { sem_id: a[0] })
    } else if n == SYS_MUTEX_CREATE {
        Some(Request::MutexCreate { blocking: a[0] != 0 })
    } else if n == SYS_MUTEX_LOCK {
        Some(Request::MutexLock { mutex_id: a[0] })
    } else if n == SYS_MUTEX_UNLOCK {
        Some(Request::MutexUnlock { mutex_id: a[0] })
    } else if n == SYS_CONDVAR_CREATE {
        Some(Request::CondvarCreate { arg: a[0] })
    } else if n == SYS_CONDVAR_SIGNAL {
        Some(Request::CondvarSignal { condvar_id: a[0] })
    } else if n == SYS_CONDVAR_WAIT {
        Some(Request::CondvarWait { condvar_id: a[0], mutex_id: a[1] })
    } else {
        None
    }
}

impl Request {
    /// The service that answers this request.
    pub fn service(&self) -> (r: Service)
        ensures
            r == spec_service(*self),
    {
        match self {
            Request::Write { .. } | Request::Read { .. } | Request::Open { .. } | Request::Close { .. } => Service::IO,
            Request::Exit { .. } | Request::Fork | Request::Exec { .. } | Request::Wait { .. } | Request::GetPid => Service::Process,
            Request::ClockGettime { .. } => Service::Clock,
            Request::SchedYield => Service::Scheduling,
            Request::Munmap { .. } | Request::Mmap { .. } => Service::Memory,
            Request::Kill { .. } | Request::Sigaction { .. } | Request::Sigprocmask { .. } | Request::Sigreturn => Service::Signal,
            Request::Waittid { .. } | Request::Gettid | Request::ThreadCreate { .. } => Service::Thread,
            _ => Service::SyncMutex,
        }
    }
}

/// The result of call `id` once dispatched: what the service returned, or
/// `Unsupported` when no service took the call (`answer` is `None`).
pub fn dispatch_result(id: SyscallId, answer: Option<isize>) -> (r: SyscallResult)
    ensures
        r == (match answer {
            Some(v) => SyscallResult::Done(v),
            None => SyscallResult::Unsupported(id),
        }),
{
    match answer {
        Some(v) => SyscallResult::Done(v),
        None => SyscallResult::Unsupported(id),
    }
}

/// The call number a program uses to make request `r`: the number named
/// after the service method that answers it.
pub open spec fn call_number(r: Request) -> usize {
    match r {
        Request::Write { .. } => SYS_WRITE,
        Request::Read { .. } => SYS_READ,
        Request::Open { .. } => SYS_OPENAT,
        Request::Close { .. } => SYS_CLOSE,
        Request::Exit { .. } => SYS_EXIT,
        Request::Fork => SYS_CLONE,
        Request::Exec { .. } => SYS_EXECVE,
        Request::Wait { .. } => SYS_WAIT4,
        Request::GetPid => SYS_GETPID,
        Request::ClockGettime { .. } => SYS_CLOCK_GETTIME,
        Request::SchedYield => SYS_SCHED_YIELD,
        Request::Munmap { .. } => SYS_MUNMAP,
        Request::Mmap { .. } => SYS_MMAP,
        Request::Kill { .. } => SYS_KILL,
        Request::Sigaction { .. } => SYS_RT_SIGACTION,
        Request::Sigprocmask { .. } => SYS_RT_SIGPROCMASK,
        Request::Sigreturn => SYS_RT_SIGRETURN,
        Request::Waittid { .. } => SYS_WAITID,
        Request::Gettid => SYS_GETTID,
        Request::ThreadCreate { .. } => SYS_THREAD_CREATE,
        Request::SemaphoreCreate { .. } => SYS_SEMAPHORE_CREATE,
        Request::SemaphoreUp { .. } => SYS_SEMAPHORE_UP,
        Request::SemaphoreDown { .. } => SYS_SEMAPHORE_DOWN,
        Request::MutexCreate { .. } => SYS_MUTEX_CREATE,
        Request::MutexLock { .. } => SYS_MUTEX_LOCK,
        Request::MutexUnlock { .. } => SYS_MUTEX_UNLOCK,
        Request::CondvarCreate { .. } => SYS_CONDVAR_CREATE,
        Request::CondvarSignal { .. } => SYS_CONDVAR_SIGNAL,
        Request::CondvarWait { .. } => SYS_CONDVAR_WAIT,
    }
}

/// The argument registers a program fills, from `a0` on, to make request
/// `r`: the request's arguments in the order the call takes them.
pub open spec fn call_args(r: Request) -> Seq<usize> {
    match r {
        Request::Write { fd, buf, count } => seq![fd, buf, count],
        Request::Read { fd, buf, count } => seq![fd, buf, count],
        Request::Open { path, flags } => seq![path, flags],
        Request::Close { fd } => seq![fd],
        Request::Exit { status } => seq![status],
        Request::Fork => seq![],
        Request::Exec { path, count } => seq![path, count],
        Request::Wait { pid, exit_code_ptr } => seq![pid as usize, exit_code_ptr],
        Request::GetPid => seq![],
        Request::ClockGettime { clock_id, tp } => seq![clock_id.0, tp],
        Request::SchedYield => seq![],
        Request::Munmap { addr, length } => seq![addr, length],
        Request::Mmap { addr, length, prot, flags, fd, offset } => seq![
            addr,
            length,
            prot as usize,
            flags as usize,
            fd as usize,
            offset,
        ],
        Request::Kill { pid, signum } => seq![pid as usize, signum as usize],
        Request::Sigaction { signum, action, old_action } => seq![signum as usize, action, old_action],
        Request::Sigprocmask { mask } => seq![mask],
        Request::Sigreturn => seq![],
        Request::Waittid { tid } => seq![tid],
        Request::Gettid => seq![],
        Request::ThreadCreate { entry, arg } => seq![entry, arg],
        Request::SemaphoreCreate { res_count } => seq![res_count],
        Request::SemaphoreUp { sem_id } => seq![sem_id],
        Request::SemaphoreDown { sem_id } => seq![sem_id],
        Request::MutexCreate { blocking } => seq![if blocking { 1usize } else { 0usize }],
        Request::MutexLock { mutex_id } => seq![mutex_id],
        Request::MutexUnlock { mutex_id } => seq![mutex_id],
        Request::CondvarCreate { arg } => seq![arg],
        Request::CondvarSignal { condvar_id } => seq![condvar_id],
        Request::CondvarWait { condvar_id, mutex_id } => seq![condvar_id, mutex_id],
    }
}

/// Decoding undoes what a program does to make a call: for every request
/// `r`, the call number of `r` with `r`'s arguments in the first argument
/// registers (whatever the other registers hold) decodes to `r` itself.
pub proof fn law_route_decodes_every_request(r: Request, a: Seq<usize>)
    requires
        a.len() == 6,
        a.take(call_args(r).len() as int) == call_args(r),
    ensures
        spec_route(call_number(r), a) == Some(r),
{
    let n = call_args(r).len() as int;
    assert forall|i: int| 0 <= i < n implies a[i] == call_args(r)[i] by {
        assert(a.take(n)[i] == a[i]);
    }
    match r {
        Request::Wait { pid, exit_code_ptr } => {
            assert(a[0] == pid as usize);
            assert((pid as usize) as isize == pid) by (bit_vector);
        },
        Request::Kill { pid, signum } => {
            assert(a[0] == pid as usize && a[1] == signum as usize);
            assert((pid as usize) as isize == pid) by (bit_vector);
            assert((signum as usize) as u8 == signum) by (bit_vector);
        },
        Request::Sigaction { signum, action, old_action } => {
            assert(a[0] == signum as usize);
            assert((signum as usize) as u8 == signum) by (bit_vector);
        },
        Request::Mmap { addr, length, prot, flags, fd, offset } => {
            assert(a[2] == prot as usize && a[3] == flags as usize && a[4] == fd as usize);
            assert((prot as usize) as i32 == prot) by (bit_vector);
            assert((flags as usize) as i32 == flags) by (bit_vector);
            assert((fd as usize) as i32 == fd) by (bit_vector);
        },
        Request::ClockGettime { clock_id, tp } => {
            assert(ClockId(a[0]) == clock_id);
        },
        Request::MutexCreate { blocking } => {
            assert(a[0] == (if blocking { 1usize } else { 0usize }));
        },
        _ => {},
    }
}

/// A decoded request is the request of the call number it came from: no
/// call number decodes to the request of another number.
pub proof fn law_route_keeps_call_number(id: usize, a: Seq<usize>)
    requires
        a.len() == 6,
    ensures
        spec_route(id, a) matches Some(r) ==> call_number(r) == id,
{
}

} // verus!
