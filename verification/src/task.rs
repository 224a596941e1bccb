//! Task control blocks of the batch system and what a finished system call
//! means for the task that made it, in the batch system and in the
//! multi-threaded kernel.
use crate::context::{fresh_context, zero_regs, ContextState, LocalContext};
use crate::dispatch::{spec_route, Request};
use crate::signal::SignalResult;
use crate::syscall::{
    SyscallId, SyscallResult, SYS_CONDVAR_WAIT, SYS_EXIT, SYS_MUTEX_LOCK, SYS_SCHED_YIELD,
    SYS_SEMAPHORE_DOWN,
};
use vstd::prelude::*;

verus! {

broadcast use crate::context::lemma_register_count;

/// What a task's system call means for scheduling.
#[derive(Clone, Copy, PartialEq, Eq, Structural, Debug)]
pub enum SchedulingEvent {
    /// The task goes on.
    NoEvent,
    /// The task gives up the processor.
    Yield,
    /// The task ended with this exit code.
    Exit(usize),
    /// The task made a system call that no service handles.
    UnsupportedSyscall(SyscallId),
}

/// Words in a task's stack.
pub const TASK_STACK_WORDS: usize = 256;

/// A task: its context, whether it finished, and its stack.
pub struct TaskControlBlock {
    ctx: LocalContext,
    /// Whether the task finished.
    pub finish: bool,
    stack: [usize; TASK_STACK_WORDS],
}

/// The context after a system call returned `ret`: `a0` holds the value and
/// the program counter is past the call instruction.
pub open spec fn returned_to(c: ContextState, ret: isize) -> ContextState {
    ContextState { regs: c.regs.update(9, ret as usize), sepc: c.sepc.wrapping_add(4), ..c }
}

impl TaskControlBlock {
    /// The task's context.
    pub closed spec fn context(&self) -> LocalContext {
        self.ctx
    }

    /// Whether the task finished.
    pub closed spec fn finished(&self) -> bool {
        self.finish
    }

    /// The task's stack.
    pub closed spec fn stack(&self) -> Seq<usize> {
        self.stack@
    }

    /// A task with a blank context and a zeroed stack.
    pub fn zero() -> (r: Self)
        ensures
            !r.finished(),
            r.stack() == Seq::new(TASK_STACK_WORDS as nat, |i: int| 0usize),
    {
        let r = Self { ctx: LocalContext::empty(), finish: false, stack: [0usize; TASK_STACK_WORDS] };
        assert(r.stack() =~= Seq::new(TASK_STACK_WORDS as nat, |i: int| 0usize));
        r
    }

    /// Prepares the task to run the program at `entry` in user mode on its
    /// zeroed stack, whose top address is `stack_top`.
    pub fn init(&mut self, entry: usize, stack_top: usize)
        ensures
            !final(self).finished(),
            final(self).stack() == Seq::new(TASK_STACK_WORDS as nat, |i: int| 0usize),
            final(self).context()@ == (ContextState {
                regs: zero_regs().update(1, stack_top),
                ..fresh_context(entry, false, true)
            }),
    {
        let mut i: usize = 0;
        while i < TASK_STACK_WORDS
            invariant
                i <= TASK_STACK_WORDS,
                self.stack@.len() == TASK_STACK_WORDS,
                forall|k: int| 0 <= k < i ==> #[trigger] self.stack@[k] == 0usize,
            decreases TASK_STACK_WORDS - i,
        {
            self.stack[i] = 0;
            i += 1;
        }
        assert(self.stack() =~= Seq::new(TASK_STACK_WORDS as nat, |i: int| 0usize));
        self.finish = false;
        self.ctx = LocalContext::user(entry);
        *self.ctx.sp_mut() = stack_top;
    }

    /// The system call the task asks for: the number from `a7` and the six
    /// arguments from `a0` to `a5`.
    pub fn syscall_request(&self) -> (r: (SyscallId, [usize; 6]))
        ensures
            r.0 == SyscallId(self.context().reg(17)),
            r.1@ == seq![
                self.context().reg(10),
                self.context().reg(11),
                self.context().reg(12),
                self.context().reg(13),
                self.context().reg(14),
                self.context().reg(15),
            ],
    {
        let id = SyscallId(self.ctx.a(7));
        let args = [self.ctx.a(0), self.ctx.a(1), self.ctx.a(2), self.ctx.a(3), self.ctx.a(4), self.ctx.a(5)];
        (id, args)
    }

    /// Applies the result of system call `id` to the task: an exit ends it
    /// with the code in `a0`; otherwise the returned value goes to `a0` and
    /// the task continues after the call, yielding if it asked to.
    pub fn handle_syscall(&mut self, id: SyscallId, result: SyscallResult) -> (event: SchedulingEvent)
        ensures
            final(self).finished() == old(self).finished(),
            final(self).stack() == old(self).stack(),
            match result {
                SyscallResult::Done(ret) => if id.0 == SYS_EXIT {
                    event == SchedulingEvent::Exit(old(self).context().reg(10))
                        && final(self).context() == old(self).context()
                } else {
                    &&& final(self).context()@ == returned_to(old(self).context()@, ret)
                    &&& event == (if id.0 == SYS_SCHED_YIELD {
                        SchedulingEvent::Yield
                    } else {
                        SchedulingEvent::NoEvent
                    })
                },
                SyscallResult::Unsupported(_) => event == SchedulingEvent::UnsupportedSyscall(id)
                    && final(self).context() == old(self).context(),
            },
    {
        match result {
            SyscallResult::Done(ret) => {
                if id.0 == SYS_EXIT {
                    SchedulingEvent::Exit(self.ctx.a(0))
                } else {
                    *self.ctx.a_mut(0) = ret as usize;
                    self.ctx.move_next();
                    if id.0 == SYS_SCHED_YIELD {
                        SchedulingEvent::Yield
                    } else {
                        SchedulingEvent::NoEvent
                    }
                }
            },
            SyscallResult::Unsupported(_) => SchedulingEvent::UnsupportedSyscall(id),
        }
    }
}


/// Exit code of a thread whose system call no service handles.
pub const EXIT_UNSUPPORTED_SYSCALL: isize = -2;
/// Exit code of a thread stopped by a trap other than a system call.
pub const EXIT_UNSUPPORTED_TRAP: isize = -3;

/// What the scheduler does with the current thread after its system call.
#[derive(Clone, Copy, PartialEq, Eq, Structural, Debug)]
pub enum ThreadAction {
    /// The thread (and its process) ends with this exit code.
    Exit(isize),
    /// The thread blocks until it is woken.
    Block,
    /// The thread is put back in the ready queue; when a value is given, it
    /// first goes to its `a0` as the call's return value.
    Suspend(Option<usize>),
}

/// Whether call number `id` may block its caller: acquiring a semaphore,
/// locking a mutex and waiting on a condition variable.
pub open spec fn may_block(id: usize) -> bool {
    id == SYS_SEMAPHORE_DOWN || id == SYS_MUTEX_LOCK || id == SYS_CONDVAR_WAIT
}

/// What happens to the thread that made system call `id`, given what
/// handling its process's signals decided and what the call returned: a
/// killing signal ends it with the signal's code; an exit ends it with the
/// returned value; a blocking call blocks it when it returned `-1` and
/// suspends it otherwise, leaving `a0` alone; any other call's value goes
/// to `a0` and the thread is suspended; an unhandled call ends it with
/// [`EXIT_UNSUPPORTED_SYSCALL`].
pub open spec fn spec_after_syscall(signal: SignalResult, id: SyscallId, result: SyscallResult) -> ThreadAction {
    match signal {
        SignalResult::ProcessKilled(code) => ThreadAction::Exit(code as isize),
        _ => match result {
            SyscallResult::Done(ret) => if id.0 == SYS_EXIT {
                ThreadAction::Exit(ret)
            } else if may_block(id.0) {
                if ret == -1 { ThreadAction::Block } else { ThreadAction::Suspend(None) }
            } else {
                ThreadAction::Suspend(Some(ret as usize))
            },
            SyscallResult::Unsupported(_) => ThreadAction::Exit(EXIT_UNSUPPORTED_SYSCALL),
        },
    }
}

/// Decides what happens to the thread that made system call `id`.
pub fn after_syscall(signal: SignalResult, id: SyscallId, result: SyscallResult) -> (r: ThreadAction)
    ensures
        r == spec_after_syscall(signal, id, result),
{
    match signal {
        SignalResult::ProcessKilled(code) => ThreadAction::Exit(code as isize),
        _ => match result {
            SyscallResult::Done(ret) => {
                let n = id.0;
                if n == SYS_EXIT {
                    ThreadAction::Exit(ret)
                } else if n == SYS_SEMAPHORE_DOWN || n == SYS_MUTEX_LOCK || n == SYS_CONDVAR_WAIT {
                    if ret == -1 {
                        ThreadAction::Block
                    } else {
                        ThreadAction::Suspend(None)
                    }
                } else {
                    ThreadAction::Suspend(Some(ret as usize))
                }
            },
            SyscallResult::Unsupported(_) => ThreadAction::Exit(EXIT_UNSUPPORTED_SYSCALL),
        },
    }
}


/// Exception code of a system call made from user mode.
pub const USER_ENV_CALL: usize = 8;

/// Whether a trap with this cause is a system call from user mode: an
/// exception, not an interrupt, with code [`USER_ENV_CALL`].
pub fn trap_is_syscall(interrupt: bool, code: usize) -> (r: bool)
    ensures
        r == (!interrupt && code == USER_ENV_CALL),
{
    !interrupt && code == USER_ENV_CALL
}

/// A thread whose call waits for a resource (acquiring a semaphore, locking
/// a mutex, waiting on a condition variable) blocks when the call answered
/// `-1`, the resource not being available, and otherwise goes back to the
/// ready queue with `a0` left alone; unless a signal ends its process.
pub proof fn law_waiting_calls_block(signal: SignalResult, id: SyscallId, a: Seq<usize>, ret: isize)
    requires
        a.len() == 6,
        !(signal is ProcessKilled),
        spec_route(id.0, a) matches Some(r) && (r is SemaphoreDown || r is MutexLock || r is CondvarWait),
    ensures
        spec_after_syscall(signal, id, SyscallResult::Done(ret)) == (if ret == -1 {
            ThreadAction::Block
        } else {
            ThreadAction::Suspend(None)
        }),
{
}

/// A thread whose call does not wait for a resource never blocks: after an
/// exit it ends with the value the call returned, after any other call that
/// a service answered it goes back to the ready queue with the returned
/// value in `a0`; unless a signal ends its process.
pub proof fn law_other_calls_return(signal: SignalResult, id: SyscallId, a: Seq<usize>, ret: isize)
    requires
        a.len() == 6,
        !(signal is ProcessKilled),
        spec_route(id.0, a) matches Some(r) && !(r is SemaphoreDown || r is MutexLock || r is CondvarWait),
    ensures
        spec_route(id.0, a) matches Some(r) && r is Exit ==> spec_after_syscall(signal, id, SyscallResult::Done(ret))
            == ThreadAction::Exit(ret),
        spec_route(id.0, a) matches Some(r) && !(r is Exit) ==> spec_after_syscall(
            signal,
            id,
            SyscallResult::Done(ret),
        ) == ThreadAction::Suspend(Some(ret as usize)),
{
}

} // verus!
