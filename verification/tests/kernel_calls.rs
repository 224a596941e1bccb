use rcore_kernel::dispatch::{dispatch_result, route, Request, Service};
use rcore_kernel::process_calls::{
    close_slot, insert_in_free_slot, io_answer, read_target, sys_sigaction, write_target, FdSlot,
    IoTarget, SigactionArgs,
};
use rcore_kernel::signal::{SignalAction, SIGINT, SIGKILL};
use rcore_kernel::signal_impl::SignalImpl;
use rcore_kernel::syscall::{
    Caller, ClockId, SyscallId, SyscallResult, TimeSpec, SYS_CLOCK_GETTIME, SYS_CLONE,
    SYS_CONDVAR_WAIT, SYS_EXIT, SYS_KILL, SYS_MMAP, SYS_MUTEX_CREATE, SYS_OPENAT, SYS_READ,
    SYS_RT_SIGACTION, SYS_SCHED_YIELD, SYS_WAIT4, SYS_WRITE,
};
use rcore_kernel::task::{SchedulingEvent, TaskControlBlock};
use rcore_kernel::process_calls::wait_answer;
use rcore_kernel::process_calls::reparent;
use rcore_kernel::process_calls::{fork_fd_table, initial_fd_table};
use rcore_kernel::process_calls::sys_kill;
use rcore_kernel::syscall::{clock_time, CLOCK_MONOTONIC, CLOCK_REALTIME};
use rcore_kernel::signal::SignalResult;
use rcore_kernel::syscall::{SYS_MUTEX_LOCK, SYS_SEMAPHORE_DOWN};
use rcore_kernel::task::{after_syscall, ThreadAction};
use rcore_kernel::file::{open_plan, OpenFlags, OpenPlan, O_CREATE, O_RDWR, O_TRUNC, O_WRONLY};
use rcore_kernel::process_calls::{thread_context, thread_stack_page, FIRST_STACK_PAGE};

#[test]
fn syscall_id_from_number() {
    assert_eq!(SyscallId::from(64), SyscallId(64));
    let c = Caller { entity: 1, flow: 2 };
    assert_eq!(c.entity, 1);
    assert_eq!(c.flow, 2);
}

#[test]
fn route_decodes_io_calls() {
    let args = [1, 0x1000, 12, 0, 0, 0];
    assert_eq!(
        route(SyscallId(SYS_WRITE), args),
        Some(Request::Write { fd: 1, buf: 0x1000, count: 12 })
    );
    assert_eq!(
        route(SyscallId(SYS_READ), args),
        Some(Request::Read { fd: 1, buf: 0x1000, count: 12 })
    );
    assert_eq!(route(SyscallId(SYS_OPENAT), args), Some(Request::Open { path: 1, flags: 0x1000 }));
    assert_eq!(Request::Write { fd: 1, buf: 0, count: 0 }.service(), Service::IO);
}

#[test]
fn route_converts_signed_and_narrow_arguments() {
    let args = [usize::MAX, 0x1_0000_0009, 3, 4, usize::MAX, 6];
    assert_eq!(
        route(SyscallId(SYS_WAIT4), args),
        Some(Request::Wait { pid: -1, exit_code_ptr: 0x1_0000_0009 })
    );
    assert_eq!(route(SyscallId(SYS_KILL), args), Some(Request::Kill { pid: -1, signum: 9 }));
    assert_eq!(
        route(SyscallId(SYS_RT_SIGACTION), [0x102, 7, 8, 0, 0, 0]),
        Some(Request::Sigaction { signum: 2, action: 7, old_action: 8 })
    );
    assert_eq!(
        route(SyscallId(SYS_MMAP), args),
        Some(Request::Mmap { addr: usize::MAX, length: 0x1_0000_0009, prot: 3, flags: 4, fd: -1, offset: 6 })
    );
    assert_eq!(route(SyscallId(SYS_MUTEX_CREATE), [0, 0, 0, 0, 0, 0]), Some(Request::MutexCreate { blocking: false }));
    assert_eq!(route(SyscallId(SYS_MUTEX_CREATE), [2, 0, 0, 0, 0, 0]), Some(Request::MutexCreate { blocking: true }));
}

#[test]
fn route_assigns_services() {
    let args = [0, 0, 0, 0, 0, 0];
    assert_eq!(route(SyscallId(SYS_EXIT), args).unwrap().service(), Service::Process);
    assert_eq!(route(SyscallId(SYS_CLONE), args), Some(Request::Fork));
    assert_eq!(route(SyscallId(SYS_SCHED_YIELD), args).unwrap().service(), Service::Scheduling);
    assert_eq!(
        route(SyscallId(SYS_CLOCK_GETTIME), [1, 0x2000, 0, 0, 0, 0]),
        Some(Request::ClockGettime { clock_id: ClockId(1), tp: 0x2000 })
    );
    assert_eq!(route(SyscallId(SYS_CLOCK_GETTIME), args).unwrap().service(), Service::Clock);
    assert_eq!(route(SyscallId(SYS_MMAP), args).unwrap().service(), Service::Memory);
    assert_eq!(route(SyscallId(SYS_KILL), args).unwrap().service(), Service::Signal);
    assert_eq!(route(SyscallId(SYS_CONDVAR_WAIT), [5, 6, 0, 0, 0, 0]), Some(Request::CondvarWait { condvar_id: 5, mutex_id: 6 }));
    assert_eq!(route(SyscallId(SYS_CONDVAR_WAIT), args).unwrap().service(), Service::SyncMutex);
}

#[test]
fn unknown_numbers_are_unsupported() {
    assert_eq!(route(SyscallId(9999), [0; 6]), None);
    assert_eq!(dispatch_result(SyscallId(9999), None), SyscallResult::Unsupported(SyscallId(9999)));
    assert_eq!(dispatch_result(SyscallId(SYS_WRITE), Some(3)), SyscallResult::Done(3));
}

fn slots() -> Vec<FdSlot> {
    vec![
        FdSlot { open: true, readable: true, writable: false },
        FdSlot { open: true, readable: false, writable: true },
        FdSlot { open: true, readable: false, writable: true },
        FdSlot { open: false, readable: false, writable: false },
        FdSlot { open: true, readable: true, writable: false },
        FdSlot { open: true, readable: true, writable: true },
    ]
}

#[test]
fn writes_go_to_console_or_writable_files() {
    let t = slots();
    assert_eq!(write_target(1, true, &t), IoTarget::Console);
    assert_eq!(write_target(2, true, &t), IoTarget::Console);
    assert_eq!(write_target(0, true, &t), IoTarget::Refused);
    assert_eq!(write_target(3, true, &t), IoTarget::Refused);
    assert_eq!(write_target(4, true, &t), IoTarget::Refused);
    assert_eq!(write_target(5, true, &t), IoTarget::File(5));
    assert_eq!(write_target(6, true, &t), IoTarget::Refused);
    assert_eq!(write_target(1, false, &t), IoTarget::Refused);
}

#[test]
fn reads_come_from_console_or_readable_files() {
    let t = slots();
    assert_eq!(read_target(0, true, &t), IoTarget::Console);
    assert_eq!(read_target(1, true, &t), IoTarget::Refused);
    assert_eq!(read_target(2, true, &t), IoTarget::Refused);
    assert_eq!(read_target(3, true, &t), IoTarget::Refused);
    assert_eq!(read_target(4, true, &t), IoTarget::File(4));
    assert_eq!(read_target(5, true, &t), IoTarget::File(5));
    assert_eq!(read_target(9, true, &t), IoTarget::Refused);
    assert_eq!(read_target(0, false, &t), IoTarget::Refused);
}

#[test]
fn io_answers() {
    assert_eq!(io_answer(IoTarget::Console, 12, 0), 12);
    assert_eq!(io_answer(IoTarget::File(3), 12, 5), 5);
    assert_eq!(io_answer(IoTarget::Refused, 12, 5), -1);
}

#[test]
fn free_slots_are_reused_first() {
    let mut list: Vec<Option<u32>> = vec![Some(1), None, Some(3), None];
    assert_eq!(insert_in_free_slot(&mut list, Some(7)), 1);
    assert_eq!(list, vec![Some(1), Some(7), Some(3), None]);
    assert_eq!(insert_in_free_slot(&mut list, Some(8)), 3);
    assert_eq!(insert_in_free_slot(&mut list, Some(9)), 4);
    assert_eq!(list, vec![Some(1), Some(7), Some(3), Some(8), Some(9)]);
}

#[test]
fn closing_descriptors() {
    let mut list: Vec<Option<u32>> = vec![Some(1), None, Some(3)];
    assert_eq!(close_slot(&mut list, 2), 0);
    assert_eq!(list, vec![Some(1), None, None]);
    assert_eq!(close_slot(&mut list, 2), -1);
    assert_eq!(close_slot(&mut list, 1), -1);
    assert_eq!(close_slot(&mut list, 7), -1);
}

#[test]
fn sigaction_reads_then_sets() {
    let mut s = SignalImpl::new();
    let new = SignalAction { handler: 0x4000, mask: 3 };
    let out = sys_sigaction(
        &mut s,
        SIGINT as u8,
        SigactionArgs { want_old: true, old_writable: true, want_new: true, new_action: Some(new) },
    );
    assert_eq!(out.ret, 0);
    assert_eq!(out.old_action, Some(SignalAction::default()));
    assert_eq!(s.get_action_ref(SIGINT), Some(new));
    let out = sys_sigaction(
        &mut s,
        SIGINT as u8,
        SigactionArgs { want_old: true, old_writable: true, want_new: false, new_action: None },
    );
    assert_eq!(out.ret, 0);
    assert_eq!(out.old_action, Some(new));
}

#[test]
fn sigaction_failures() {
    let mut s = SignalImpl::new();
    let a = SignalAction { handler: 0x4000, mask: 3 };
    let all = SigactionArgs { want_old: false, old_writable: false, want_new: true, new_action: Some(a) };
    assert_eq!(sys_sigaction(&mut s, 0, all).ret, -1);
    assert_eq!(sys_sigaction(&mut s, 32, all).ret, -1);
    assert_eq!(sys_sigaction(&mut s, SIGKILL as u8, all).ret, -1);
    let unreadable = SigactionArgs { want_old: false, old_writable: false, want_new: true, new_action: None };
    assert_eq!(sys_sigaction(&mut s, SIGINT as u8, unreadable).ret, -1);
    let unwritable = SigactionArgs { want_old: true, old_writable: false, want_new: true, new_action: Some(a) };
    assert_eq!(sys_sigaction(&mut s, SIGINT as u8, unwritable).ret, -1);
    assert_eq!(s.get_action_ref(SIGINT), Some(SignalAction::default()));
}

#[test]
fn time_from_milliseconds() {
    let t = TimeSpec::from_millsecond(2500);
    assert_eq!(t.tv_sec, 2);
    assert_eq!(t.tv_nsec, 500_000_000);
}

#[test]
fn time_sum_carries_past_one_second() {
    let a = TimeSpec { tv_sec: 1, tv_nsec: 700_000_000 };
    let b = TimeSpec { tv_sec: 2, tv_nsec: 400_000_000 };
    assert_eq!(a + b, TimeSpec { tv_sec: 4, tv_nsec: 100_000_000 });
    let c = TimeSpec { tv_sec: 0, tv_nsec: 500_000_000 };
    assert_eq!(c + c, TimeSpec { tv_sec: 1, tv_nsec: 0 });
    let d = TimeSpec { tv_sec: 0, tv_nsec: 600_000_000 };
    assert_eq!(c + d, TimeSpec { tv_sec: 1, tv_nsec: 100_000_000 });
}

#[test]
fn task_syscall_results() {
    let mut t = TaskControlBlock::zero();
    assert!(!t.finish);
    t.init(0x8040_0000, 0x8050_0000);
    let (id, args) = t.syscall_request();
    assert_eq!(id, SyscallId(0));
    assert_eq!(args, [0; 6]);
    assert_eq!(t.handle_syscall(SyscallId(SYS_WRITE), SyscallResult::Done(5)), SchedulingEvent::NoEvent);
    assert_eq!(t.syscall_request().1[0], 5);
    assert_eq!(t.handle_syscall(SyscallId(SYS_SCHED_YIELD), SyscallResult::Done(0)), SchedulingEvent::Yield);
    assert_eq!(t.syscall_request().1[0], 0);
    assert_eq!(
        t.handle_syscall(SyscallId(77), SyscallResult::Unsupported(SyscallId(77))),
        SchedulingEvent::UnsupportedSyscall(SyscallId(77))
    );
    assert_eq!(t.handle_syscall(SyscallId(SYS_EXIT), SyscallResult::Done(3)), SchedulingEvent::Exit(0));
}

#[test]
fn wait_answers() {
    assert_eq!(wait_answer(-1, true, false), 0);
    assert_eq!(wait_answer(-1, false, true), -1);
    assert_eq!(wait_answer(7, false, true), 7);
    assert_eq!(wait_answer(7, true, false), -1);
}

#[test]
fn exiting_process_hands_children_to_parent() {
    let mut children = vec![3, 5, 7, 5];
    reparent(&mut children, 5, &[11, 12]);
    assert_eq!(children, vec![3, 7, 5, 11, 12]);
    let mut children = vec![3];
    reparent(&mut children, 9, &[]);
    assert_eq!(children, vec![3]);
}

#[test]
fn kill_records_valid_signals_only() {
    let mut s = SignalImpl::new();
    assert_eq!(sys_kill(&mut s, SIGINT as u8), 0);
    assert!(s.received.contain_bit(SIGINT));
    assert_eq!(sys_kill(&mut s, 0), -1);
    assert_eq!(sys_kill(&mut s, 32), -1);
    assert_eq!(s.received.0, 1 << SIGINT);
}

#[test]
fn monotonic_clock_from_ticks() {
    assert_eq!(
        clock_time(ClockId(CLOCK_MONOTONIC), 12_500_000),
        Some(TimeSpec { tv_sec: 1, tv_nsec: 0 })
    );
    assert_eq!(
        clock_time(ClockId(CLOCK_MONOTONIC), 12_500_001),
        Some(TimeSpec { tv_sec: 1, tv_nsec: 80 })
    );
    assert_eq!(clock_time(ClockId(CLOCK_REALTIME), 12_500_000), None);
}

#[test]
fn thread_fate_after_syscall() {
    let done = |v| SyscallResult::Done(v);
    assert_eq!(
        after_syscall(SignalResult::ProcessKilled(-9), SyscallId(SYS_WRITE), done(3)),
        ThreadAction::Exit(-9)
    );
    assert_eq!(after_syscall(SignalResult::NoSignal, SyscallId(SYS_EXIT), done(4)), ThreadAction::Exit(4));
    assert_eq!(after_syscall(SignalResult::NoSignal, SyscallId(SYS_SEMAPHORE_DOWN), done(-1)), ThreadAction::Block);
    assert_eq!(after_syscall(SignalResult::Handled, SyscallId(SYS_MUTEX_LOCK), done(0)), ThreadAction::Suspend(None));
    assert_eq!(
        after_syscall(SignalResult::Ignored, SyscallId(SYS_WRITE), done(-1)),
        ThreadAction::Suspend(Some(usize::MAX))
    );
    assert_eq!(
        after_syscall(SignalResult::NoSignal, SyscallId(4242), SyscallResult::Unsupported(SyscallId(4242))),
        ThreadAction::Exit(-2)
    );
}

#[test]
fn open_flags_decide_access() {
    assert_eq!(OpenFlags::from_bits(0).unwrap().read_write(), (true, false));
    assert_eq!(OpenFlags::from_bits(O_WRONLY).unwrap().read_write(), (false, true));
    assert_eq!(OpenFlags::from_bits(O_RDWR).unwrap().read_write(), (true, true));
    assert_eq!(OpenFlags::from_bits(O_CREATE | O_WRONLY).unwrap().read_write(), (false, true));
    assert_eq!(OpenFlags::from_bits(O_CREATE).unwrap().read_write(), (true, true));
    assert_eq!(OpenFlags::from_bits(4), None);
    assert!(OpenFlags(O_CREATE | O_TRUNC).contains(O_TRUNC));
    assert!(OpenFlags(0).is_empty());
}

#[test]
fn open_plans() {
    let create = OpenFlags(O_CREATE | O_RDWR);
    assert_eq!(open_plan(create, true), OpenPlan::Existing { clear: true });
    assert_eq!(open_plan(create, false), OpenPlan::Create);
    assert_eq!(open_plan(OpenFlags(O_TRUNC), true), OpenPlan::Existing { clear: true });
    assert_eq!(open_plan(OpenFlags(O_RDWR), true), OpenPlan::Existing { clear: false });
    assert_eq!(open_plan(OpenFlags(O_RDWR), false), OpenPlan::Fail);
}

#[test]
fn new_thread_stacks_skip_used_gigabytes() {
    let mut valid = [false; 512];
    assert_eq!(thread_stack_page(&valid), Some(FIRST_STACK_PAGE));
    valid[255] = true;
    assert_eq!(thread_stack_page(&valid), Some(0x3fb_ffff));
    valid[254] = true;
    assert_eq!(thread_stack_page(&valid), Some(0x3f7_fffd));
}

#[test]
fn no_stack_when_every_gigabyte_is_used() {
    assert_eq!(thread_stack_page(&[true; 512]), None);
}

#[test]
fn new_thread_context() {
    let c = thread_context(0x1_0000, 42, 0x3fb_ffff);
    assert_eq!(c.pc(), 0x1_0000);
    assert_eq!(c.sp(), 0x3fc_0001 * 4096);
    assert_eq!(c.a(0), 42);
    assert!(!c.supervisor);
    assert!(c.interrupt);
}

#[test]
fn forked_descriptor_table_keeps_every_slot() {
    let parent = slots();
    let child = fork_fd_table(&parent);
    assert_eq!(child, parent);
    assert_eq!(fork_fd_table(&[]), Vec::<FdSlot>::new());
}

#[test]
fn new_process_reads_stdin_and_writes_stdout() {
    let table = initial_fd_table();
    assert_eq!(table.len(), 2);
    assert_eq!(read_target(0, true, &table), IoTarget::Console);
    assert_eq!(write_target(1, true, &table), IoTarget::Console);
    assert_eq!(read_target(1, true, &table), IoTarget::Refused);
    assert_eq!(write_target(0, true, &table), IoTarget::Refused);
}
