//! The decisions that process-level system calls make on a process's
//! tables: where reads and writes go, what `wait` answers, how an exiting
//! process hands its children over, where a new thread's stack goes and how
//! it starts, reusing free slots of resource lists, closing descriptors,
//! sending signals, and reading and setting signal actions.
use crate::context::{fresh_context, zero_regs, ContextState, LocalContext};
use crate::signal::{SignalAction, MAX_SIG, SIGKILL, SIGSTOP};
use crate::signal_impl::SignalImpl;
use vstd::prelude::*;

verus! {

/// What a descriptor slot of a process holds, as reading and writing
/// consult it.
#[derive(Clone, Copy, PartialEq, Eq, Structural, Debug)]
pub struct FdSlot {
    /// A file is open in the slot.
    pub open: bool,
    /// The file can be read.
    pub readable: bool,
    /// The file can be written.
    pub writable: bool,
}

/// Where a read or a write goes.
#[derive(Clone, Copy, PartialEq, Eq, Structural, Debug)]
pub enum IoTarget {
    /// The console.
    Console,
    /// The file open in this descriptor slot.
    File(usize),
    /// Nowhere: the call fails with `-1`.
    Refused,
}

/// The standard input descriptor.
pub const STDIN: usize = 0;
/// The standard output descriptor.
pub const STDOUT: usize = 1;
/// The debugging output descriptor.
pub const STDDEBUG: usize = 2;

/// Where a write of the caller's buffer to descriptor `fd` goes, given
/// whether the buffer is mapped readable and the caller's descriptor table:
/// standard output and debugging output write to the console; another
/// descriptor of the table writes to its file when one is open there and can
/// be written.
pub open spec fn spec_write_target(fd: usize, mapped: bool, slots: Seq<FdSlot>) -> IoTarget {
    if !mapped {
        IoTarget::Refused
    } else if fd == STDOUT || fd == STDDEBUG {
        IoTarget::Console
    } else if fd < slots.len() && slots[fd as int].open && slots[fd as int].writable {
        IoTarget::File(fd)
    } else {
        IoTarget::Refused
    }
}

/// Where a read from descriptor `fd` into the caller's buffer goes, given
/// whether the buffer is mapped writable and the caller's descriptor table:
/// standard input reads from the console; another descriptor of the table
/// reads from its file when one is open there and can be read.
pub open spec fn spec_read_target(fd: usize, mapped: bool, slots: Seq<FdSlot>) -> IoTarget {
    if !mapped {
        IoTarget::Refused
    } else if fd == STDIN {
        IoTarget::Console
    } else if fd < slots.len() && slots[fd as int].open && slots[fd as int].readable {
        IoTarget::File(fd)
    } else {
        IoTarget::Refused
    }
}

/// Where a write to descriptor `fd` goes.
pub fn write_target(fd: usize, mapped: bool, slots: &[FdSlot]) -> (r: IoTarget)
    ensures
        r == spec_write_target(fd, mapped, slots@),
{
    if !mapped {
        IoTarget::Refused
    } else if fd == STDOUT || fd == STDDEBUG {
        IoTarget::Console
    } else if fd < slots.len() && slots[fd].open && slots[fd].writable {
        IoTarget::File(fd)
    } else {
        IoTarget::Refused
    }
}

/// Where a read from descriptor `fd` goes.
pub fn read_target(fd: usize, mapped: bool, slots: &[FdSlot]) -> (r: IoTarget)
    ensures
        r == spec_read_target(fd, mapped, slots@),
{
    if !mapped {
        IoTarget::Refused
    } else if fd == STDIN {
        IoTarget::Console
    } else if fd < slots.len() && slots[fd].open && slots[fd].readable {
        IoTarget::File(fd)
    } else {
        IoTarget::Refused
    }
}

/// What a read or a write of `count` bytes answers once done: `count` for
/// the console, the bytes the file moved (`moved`) for a file, `-1` when
/// refused.
pub fn io_answer(target: IoTarget, count: usize, moved: usize) -> (r: isize)
    ensures
        r == (match target {
            IoTarget::Console => count as isize,
            IoTarget::File(_) => moved as isize,
            IoTarget::Refused => -1isize,
        }),
{
    match target {
        IoTarget::Console => count as isize,
        IoTarget::File(_) => moved as isize,
        IoTarget::Refused => -1,
    }
}

/// What `wait` answers: for `pid == -1`, `0` when the caller has no child
/// left and `-1` otherwise; for another `pid`, `pid` once that process is
/// gone and `-1` while it still exists.
pub fn wait_answer(pid: isize, no_children: bool, target_gone: bool) -> (r: isize)
    ensures
        r == (if pid == -1 {
            if no_children { 0isize } else { -1isize }
        } else {
            if target_gone { pid } else { -1isize }
        }),
{
    if pid == -1 {
        if no_children { 0 } else { -1 }
    } else {
        if target_gone { pid } else { -1 }
    }
}

/// The children of a parent after its child `pid` exits: `pid` leaves the
/// list (its first occurrence, if any) and the children of `pid`, `orphans`,
/// are appended in their order.
pub open spec fn spec_reparent(children: Seq<usize>, pid: usize, orphans: Seq<usize>) -> Seq<usize> {
    let kept = match children.index_of_first(pid) {
        Some(i) => children.remove(i),
        None => children,
    };
    kept + orphans
}

/// Hands the children of exiting process `pid` to its parent, whose
/// children are `children`.
pub fn reparent(children: &mut Vec<usize>, pid: usize, orphans: &[usize])
    ensures
        final(children)@ == spec_reparent(old(children)@, pid, orphans@),
{
    let n = children.len();
    let mut i: usize = 0;
    while i < n && children[i] != pid
        invariant
            i <= n,
            n == children@.len(),
            forall|j: int| 0 <= j < i ==> children@[j] != pid,
        decreases n - i,
    {
        i += 1;
    }
    proof {
        children@.index_of_first_ensures(pid);
    }
    if i < n {
        proof {
            let f = children@.index_of_first(pid);
            assert(children@.contains(pid));
            assert(f == Some(i as int)) by {
                let k = f->Some_0;
                if k < i {
                    assert(children@[k] != pid);
                }
                if k > i {
                    assert(children@[i as int] != pid);
                }
            }
        }
        children.remove(i);
    }
    let ghost kept = children@;
    let mut k: usize = 0;
    while k < orphans.len()
        invariant
            k <= orphans@.len(),
            children@ == kept + orphans@.take(k as int),
        decreases orphans@.len() - k,
    {
        children.push(orphans[k]);
        k += 1;
        assert(children@ =~= kept + orphans@.take(k as int));
    }
    assert(orphans@.take(k as int) =~= orphans@);
}

/// First page of the stack of a process's first thread; each stack tried
/// for a further thread lies three pages below the one tried before.
pub const FIRST_STACK_PAGE: usize = 0x3ff_fffe;

/// The root page-table entry that covers virtual page `vpn` under Sv39.
pub open spec fn root_index(vpn: int) -> int {
    vpn / 0x4_0000
}

/// Whether page `vpn` is one of the stack pages tried for new threads.
pub open spec fn stack_candidate(vpn: int) -> bool {
    0 <= vpn <= FIRST_STACK_PAGE && (FIRST_STACK_PAGE - vpn) % 3 == 0
}

/// Where the stack of a new thread goes, given which of the 512 root
/// page-table entries of the address space are valid: the highest stack
/// page tried whose root entry is not valid, or `None` when every one is.
pub fn thread_stack_page(root_valid: &[bool]) -> (r: Option<usize>)
    requires
        root_valid@.len() == 512,
    ensures
        r matches Some(v) ==> stack_candidate(v as int) && !root_valid@[root_index(v as int)] && (
        forall|w: int| stack_candidate(w) && v < w ==> #[trigger] root_valid@[root_index(w)]),
        r is None ==> forall|w: int| stack_candidate(w) ==> #[trigger] root_valid@[root_index(w)],
{
    let mut vpn: usize = FIRST_STACK_PAGE;
    loop
        invariant
            root_valid@.len() == 512,
            stack_candidate(vpn as int),
            forall|w: int| stack_candidate(w) && vpn < w ==> #[trigger] root_valid@[root_index(w)],
        decreases vpn,
    {
        let idx = vpn / 0x4_0000;
        if !root_valid[idx] {
            return Some(vpn);
        }
        if vpn < 3 {
            assert forall|w: int| stack_candidate(w) implies #[trigger] root_valid@[root_index(w)] by {
                if w < vpn {
                    assert((FIRST_STACK_PAGE - w) % 3 == 0);
                }
            }
            return None;
        }
        let ghost before = vpn;
        vpn = vpn - 3;
        assert forall|w: int| stack_candidate(w) && vpn < w implies #[trigger] root_valid@[root_index(w)] by {
            if w < before {
                assert((before - w) % 3 == 0);
                assert(w <= vpn);
            }
        }
    }
}

/// The context of a new thread that runs `entry` with argument `arg` on
/// the two stack pages from `stack_page`: user mode, the stack pointer at
/// the top of those pages and `a0` holding `arg`.
pub fn thread_context(entry: usize, arg: usize, stack_page: usize) -> (r: LocalContext)
    requires
        (stack_page + 2) * 4096 <= usize::MAX,
    ensures
        r@ == (ContextState {
            regs: zero_regs().update(1, ((stack_page + 2) * 4096) as usize).update(9, arg),
            ..fresh_context(entry, false, true)
        }),
{
    let mut context = LocalContext::user(entry);
    *context.sp_mut() = (stack_page + 2) * 4096;
    *context.a_mut(0) = arg;
    context
}

/// Whether `list` has an empty slot.
pub open spec fn has_free<T>(list: Seq<Option<T>>) -> bool {
    exists|i: int| 0 <= i < list.len() && (#[trigger] list[i]) is None
}

/// Stores `item` in the first empty slot of `list`, or appends it when no
/// slot is empty, and returns the slot's number: how semaphores, mutexes and
/// condition variables get their identifiers.
pub fn insert_in_free_slot<T>(list: &mut Vec<Option<T>>, item: Option<T>) -> (id: usize)
    ensures
        has_free(old(list)@) ==> {
            &&& id < old(list)@.len()
            &&& old(list)@[id as int] is None
            &&& forall|j: int| 0 <= j < id ==> (#[trigger] old(list)@[j]) is Some
            &&& final(list)@ == old(list)@.update(id as int, item)
        },
        !has_free(old(list)@) ==> id == old(list)@.len() && final(list)@ == old(list)@.push(item),
{
    let mut i: usize = 0;
    while i < list.len()
        invariant
            i <= list@.len(),
            *list == *old(list),
            forall|j: int| 0 <= j < i ==> (#[trigger] list@[j]) is Some,
        decreases list@.len() - i,
    {
        if list[i].is_none() {
            list.set(i, item);
            return i;
        }
        i += 1;
    }
    list.push(item);
    i
}

/// Closes descriptor `fd`: `-1` when it is out of range or already closed,
/// else the slot is emptied and the answer is `0`.
pub fn close_slot<T>(list: &mut Vec<Option<T>>, fd: usize) -> (r: isize)
    ensures
        (fd >= old(list)@.len() || old(list)@[fd as int] is None) ==> r == -1 && final(list)@ == old(list)@,
        (fd < old(list)@.len() && old(list)@[fd as int] is Some) ==> r == 0 && final(list)@ == old(list)@.update(
            fd as int,
            None,
        ),
{
    if fd >= list.len() || list[fd].is_none() {
        return -1;
    }
    list.set(fd, None);
    0
}

/// The descriptor table a new process starts with: standard input, open for
/// reading, and standard output, open for writing.
pub fn initial_fd_table() -> (r: Vec<FdSlot>)
    ensures
        r@ == seq![
            FdSlot { open: true, readable: true, writable: false },
            FdSlot { open: true, readable: false, writable: true },
        ],
{
    let mut table: Vec<FdSlot> = Vec::new();
    table.push(FdSlot { open: true, readable: true, writable: false });
    table.push(FdSlot { open: true, readable: false, writable: true });
    assert(table@ =~= seq![
        FdSlot { open: true, readable: true, writable: false },
        FdSlot { open: true, readable: false, writable: true },
    ]);
    table
}

/// The descriptor table of a forked process: every slot as the parent holds
/// it, open files open on the same terms, empty slots empty.
pub fn fork_fd_table(slots: &[FdSlot]) -> (r: Vec<FdSlot>)
    ensures
        r@ == slots@,
{
    let mut table: Vec<FdSlot> = Vec::new();
    let mut i: usize = 0;
    while i < slots.len()
        invariant
            i <= slots@.len(),
            table@ == slots@.subrange(0, i as int),
        decreases slots@.len() - i,
    {
        table.push(slots[i]);
        i += 1;
        assert(table@ =~= slots@.subrange(0, i as int));
    }
    assert(table@ =~= slots@);
    table
}

/// How `sigaction` can access the caller's memory: whether the caller asked
/// for the old action and the address can be written, and the new action
/// when one was given and could be read.
#[derive(Clone, Copy)]
pub struct SigactionArgs {
    /// The caller gave an address for the old action.
    pub want_old: bool,
    /// That address is writable.
    pub old_writable: bool,
    /// The caller gave an address for a new action.
    pub want_new: bool,
    /// The new action read at that address, when it is readable.
    pub new_action: Option<SignalAction>,
}

/// The outcome of `sigaction`: the return value and the old action to write
/// back, if any.
#[derive(Clone, Copy)]
pub struct SigactionOutcome {
    pub ret: isize,
    pub old_action: Option<SignalAction>,
}

/// Whether `signum` is a signal whose action can be read or set.
pub open spec fn valid_signum(signum: u8) -> bool {
    1 <= signum <= MAX_SIG
}

/// The outcome of `sigaction` for signal `signum` on the signal state `s`.
pub open spec fn spec_sigaction(s: SignalImpl, signum: u8, args: SigactionArgs) -> (SignalImpl, SigactionOutcome) {
    let n = signum as usize;
    if !valid_signum(signum) {
        (s, SigactionOutcome { ret: -1isize, old_action: None })
    } else if args.want_old && (!args.old_writable || s.spec_get_action(n) is None) {
        (s, SigactionOutcome { ret: -1isize, old_action: None })
    } else {
        let old = if args.want_old { s.spec_get_action(n) } else { None };
        if args.want_new {
            match args.new_action {
                None => (s, SigactionOutcome { ret: -1isize, old_action: old }),
                Some(a) => if n == SIGKILL || n == SIGSTOP {
                    (s, SigactionOutcome { ret: -1isize, old_action: old })
                } else {
                    (s.spec_with_action(n, a), SigactionOutcome { ret: 0, old_action: old })
                },
            }
        } else {
            (s, SigactionOutcome { ret: 0, old_action: old })
        }
    }
}

/// Sends signal `signum` to the process whose signal state is `target`:
/// a number from 1 to [`MAX_SIG`] is recorded as received and the answer is
/// `0`; any other number changes nothing and the answer is `-1`.
pub fn sys_kill(target: &mut SignalImpl, signum: u8) -> (r: isize)
    requires
        old(target).wf(),
    ensures
        final(target).wf(),
        valid_signum(signum) ==> r == 0 && *final(target) == (SignalImpl {
            received: crate::signal::SignalSet(old(target).received.0 | (1usize << signum as usize)),
            ..*old(target)
        }),
        !valid_signum(signum) ==> r == -1 && *final(target) == *old(target),
{
    if signum == 0 || signum as usize > MAX_SIG {
        return -1;
    }
    target.add_signal(signum as usize);
    0
}

/// Reads and sets the action of signal `signum`: the signal number must be
/// between 1 and [`MAX_SIG`]; the old action is read first, and the call
/// fails when the caller's address for it cannot be written or the signal
/// has no readable action; then the new action is set, and the call fails
/// when it could not be read or the signal's action cannot change.
pub fn sys_sigaction(signals: &mut SignalImpl, signum: u8, args: SigactionArgs) -> (r: SigactionOutcome)
    requires
        old(signals).wf(),
    ensures
        final(signals).wf(),
        (*final(signals), r) == spec_sigaction(*old(signals), signum, args),
{
    if signum as usize > MAX_SIG || signum == 0 {
        return SigactionOutcome { ret: -1, old_action: None };
    }
    let n = signum as usize;
    let mut old_action: Option<SignalAction> = None;
    if args.want_old {
        if args.old_writable {
            match signals.get_action_ref(n) {
                Some(a) => old_action = Some(a),
                None => return SigactionOutcome { ret: -1, old_action: None },
            }
        } else {
            return SigactionOutcome { ret: -1, old_action: None };
        }
    }
    if args.want_new {
        match args.new_action {
            Some(a) => {
                if !signals.set_action(n, &a) {
                    return SigactionOutcome { ret: -1, old_action };
                }
            },
            None => return SigactionOutcome { ret: -1, old_action },
        }
    }
    SigactionOutcome { ret: 0, old_action }
}

} // verus!
