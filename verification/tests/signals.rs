use rcore_kernel::context::LocalContext;
use rcore_kernel::signal::{
    SignalAction, SignalResult, SignalSet, SIGCHLD, SIGCONT, SIGINT, SIGKILL, SIGSTOP, SIGURG,
    SIGUSR1,
};
use rcore_kernel::signal_impl::{DefaultAction, SignalImpl};

#[test]
fn default_actions_ignore_child_and_urgent_signals() {
    assert_eq!(DefaultAction::from_signal(SIGCHLD), DefaultAction::Ignore);
    assert_eq!(DefaultAction::from_signal(SIGURG), DefaultAction::Ignore);
    assert_eq!(DefaultAction::from_signal(SIGINT), DefaultAction::Terminate(-2));
    assert_eq!(DefaultAction::Terminate(-2).into_result(), SignalResult::ProcessKilled(-2));
    assert_eq!(DefaultAction::Ignore.into_result(), SignalResult::Ignored);
}

#[test]
fn signal_action_default_value() {
    let a = SignalAction::default();
    assert_eq!(a.handler, 0);
    assert_eq!(a.mask, 40);
}

#[test]
fn signal_set_bits() {
    let mut s = SignalSet::empty();
    assert_eq!(s.0, 0);
    s.add_bit(3);
    s.add_bit(10);
    assert!(s.contain_bit(3));
    assert!(s.contain_bit(10));
    assert!(!s.contain_bit(4));
    assert_eq!(s.find_first_one(SignalSet::empty()), Some(3));
    assert_eq!(s.find_first_one(SignalSet(1 << 3)), Some(10));
    assert_eq!(s.find_first_one(SignalSet((1 << 3) | (1 << 10))), None);
    s.remove_bit(3);
    assert!(!s.contain_bit(3));
    assert_eq!(s.0, 1 << 10);
    let old = s.set_new(SignalSet(7));
    assert_eq!(old, 1 << 10);
    assert_eq!(s.0, 7);
}

#[test]
fn no_signal_without_pending() {
    let mut s = SignalImpl::new();
    let mut ctx = LocalContext::user(0x1000);
    assert_eq!(s.handle_signals(&mut ctx), SignalResult::NoSignal);
    assert!(!s.is_handling_signal());
}

#[test]
fn unhandled_signal_ends_process_with_negated_number() {
    let mut s = SignalImpl::new();
    let mut ctx = LocalContext::user(0x1000);
    s.add_signal(SIGINT);
    assert_eq!(s.handle_signals(&mut ctx), SignalResult::ProcessKilled(-2));
    assert_eq!(s.received.0, 0);
    assert_eq!(ctx.pc(), 0x1000);
}

#[test]
fn kill_ends_process_even_with_handlers() {
    let mut s = SignalImpl::new();
    let mut ctx = LocalContext::user(0x1000);
    assert!(!s.set_action(SIGKILL, &SignalAction { handler: 0x2000, mask: 0 }));
    assert_eq!(s.get_action_ref(SIGKILL), None);
    s.add_signal(SIGKILL);
    assert_eq!(s.handle_signals(&mut ctx), SignalResult::ProcessKilled(-9));
}

#[test]
fn child_signal_is_ignored() {
    let mut s = SignalImpl::new();
    let mut ctx = LocalContext::user(0x1000);
    s.add_signal(SIGCHLD);
    assert_eq!(s.handle_signals(&mut ctx), SignalResult::Ignored);
    assert_eq!(s.handle_signals(&mut ctx), SignalResult::NoSignal);
}

#[test]
fn stop_suspends_until_continue() {
    let mut s = SignalImpl::new();
    let mut ctx = LocalContext::user(0x1000);
    s.add_signal(SIGSTOP);
    assert_eq!(s.handle_signals(&mut ctx), SignalResult::ProcessSuspended);
    assert!(s.is_handling_signal());
    assert_eq!(s.handle_signals(&mut ctx), SignalResult::ProcessSuspended);
    s.add_signal(SIGCONT);
    assert_eq!(s.handle_signals(&mut ctx), SignalResult::Handled);
    assert!(!s.is_handling_signal());
    assert_eq!(s.handle_signals(&mut ctx), SignalResult::NoSignal);
}

#[test]
fn user_handler_runs_and_returns() {
    let mut s = SignalImpl::new();
    let mut ctx = LocalContext::user(0x1000);
    *ctx.a_mut(0) = 77;
    assert!(s.set_action(SIGUSR1, &SignalAction { handler: 0x2000, mask: 0 }));
    assert_eq!(s.get_action_ref(SIGUSR1), Some(SignalAction { handler: 0x2000, mask: 0 }));
    s.add_signal(SIGUSR1);
    assert_eq!(s.handle_signals(&mut ctx), SignalResult::Handled);
    assert_eq!(ctx.pc(), 0x2000);
    assert_eq!(ctx.a(0), SIGUSR1);
    s.add_signal(SIGINT);
    assert_eq!(s.handle_signals(&mut ctx), SignalResult::IsHandlingSignal);
    assert!(s.sig_return(&mut ctx));
    assert_eq!(ctx.pc(), 0x1000);
    assert_eq!(ctx.a(0), 77);
    assert!(!s.sig_return(&mut ctx));
}

#[test]
fn masked_signal_waits() {
    let mut s = SignalImpl::new();
    let mut ctx = LocalContext::user(0x1000);
    assert_eq!(s.update_mask(1 << SIGINT), 0);
    s.add_signal(SIGINT);
    assert_eq!(s.handle_signals(&mut ctx), SignalResult::NoSignal);
    assert_eq!(s.update_mask(0), 1 << SIGINT);
    assert_eq!(s.handle_signals(&mut ctx), SignalResult::ProcessKilled(-2));
}

#[test]
fn lowest_signal_goes_first() {
    let mut s = SignalImpl::new();
    s.add_signal(SIGUSR1);
    s.add_signal(SIGINT);
    assert_eq!(s.fetch_signal(), Some(SIGINT));
    assert_eq!(s.fetch_signal(), Some(SIGUSR1));
    assert_eq!(s.fetch_signal(), None);
}

#[test]
fn fetch_and_remove_respects_mask() {
    let mut s = SignalImpl::new();
    s.add_signal(SIGCONT);
    s.update_mask(1 << SIGCONT);
    assert!(!s.fetch_and_remove(SIGCONT));
    s.update_mask(0);
    assert!(s.fetch_and_remove(SIGCONT));
    assert!(!s.fetch_and_remove(SIGCONT));
}

#[test]
fn unset_action_reads_as_default() {
    let s = SignalImpl::new();
    assert_eq!(s.get_action_ref(SIGINT), Some(SignalAction::default()));
    assert_eq!(s.get_action_ref(SIGSTOP), None);
}

#[test]
fn fork_keeps_mask_and_handlers_only() {
    let mut s = SignalImpl::new();
    s.set_action(SIGUSR1, &SignalAction { handler: 0x3000, mask: 1 });
    s.update_mask(1 << SIGINT);
    s.add_signal(SIGUSR1);
    let child = s.from_fork();
    assert_eq!(child.received.0, 0);
    assert_eq!(child.mask.0, 1 << SIGINT);
    assert!(child.handling.is_none());
    assert_eq!(child.get_action_ref(SIGUSR1), Some(SignalAction { handler: 0x3000, mask: 1 }));
}

#[test]
fn clear_removes_handlers() {
    let mut s = SignalImpl::new();
    s.set_action(SIGUSR1, &SignalAction { handler: 0x3000, mask: 1 });
    s.add_signal(SIGINT);
    s.clear();
    assert_eq!(s.get_action_ref(SIGUSR1), Some(SignalAction::default()));
    assert!(s.received.contain_bit(SIGINT));
}
