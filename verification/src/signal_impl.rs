//! Per-process signal state: received and masked signals, the handler of
//! each signal, and the decision of what a pending signal does.
use crate::context::{ContextState, LocalContext};
use crate::signal::{
    SignalAction, SignalResult, SignalSet, MAX_SIG, SIGCHLD, SIGCONT, SIGKILL, SIGSTOP, SIGURG,
};
use vstd::prelude::*;
use vstd::array::spec_array_update;

verus! {

broadcast use crate::context::lemma_register_count;

/// Number of handler slots: signals `0..=MAX_SIG`.
pub const SIG_SLOTS: usize = 32;

/// What a signal without a handler does.
#[derive(Clone, Copy, PartialEq, Eq, Structural, Debug)]
pub enum DefaultAction {
    /// The process ends with the given exit code.
    Terminate(i32),
    /// The signal is ignored.
    Ignore,
}

impl DefaultAction {
    /// The default action of signal `signum`: the child and urgent-data
    /// signals are ignored, every other signal ends the process with the
    /// negated signal number as exit code.
    pub open spec fn spec_of(signum: usize) -> DefaultAction {
        if signum == SIGCHLD || signum == SIGURG {
            DefaultAction::Ignore
        } else {
            DefaultAction::Terminate((-(signum as int)) as i32)
        }
    }

    /// The outcome of handling a signal by this default action.
    pub open spec fn spec_result(self) -> SignalResult {
        match self {
            DefaultAction::Terminate(code) => SignalResult::ProcessKilled(code),
            DefaultAction::Ignore => SignalResult::Ignored,
        }
    }

    /// The default action of signal `signum`.
    pub fn from_signal(signum: usize) -> (r: DefaultAction)
        requires
            signum <= MAX_SIG,
        ensures
            r == DefaultAction::spec_of(signum),
    {
        if signum == SIGCHLD || signum == SIGURG {
            DefaultAction::Ignore
        } else {
            DefaultAction::Terminate(-(signum as i32))
        }
    }

    /// The outcome of handling a signal by this default action.
    pub fn into_result(self) -> (r: SignalResult)
        ensures
            r == self.spec_result(),
    {
        match self {
            DefaultAction::Terminate(code) => SignalResult::ProcessKilled(code),
            DefaultAction::Ignore => SignalResult::Ignored,
        }
    }
}

/// The signal the process is handling.
#[derive(Clone, Copy)]
pub enum HandlingSignal {
    /// A stop signal: the process stays suspended until it continues.
    Frozen,
    /// A user handler runs; the context it interrupted is kept here.
    UserSignal(LocalContext),
}

/// The signal state of one process.
#[derive(Clone, Copy)]
pub struct SignalImpl {
    /// Signals received and not handled yet.
    pub received: SignalSet,
    /// Masked signals.
    pub mask: SignalSet,
    /// The signal being handled, if any.
    pub handling: Option<HandlingSignal>,
    /// The handler of each signal.
    pub actions: [Option<SignalAction>; SIG_SLOTS],
}

/// The effect of [`SignalImpl::handle_signals`]: the new signal state, the
/// outcome and the new context of the running thread.
pub struct HandleOutcome {
    pub state: SignalImpl,
    pub result: SignalResult,
    pub context: ContextState,
}

/// `set` without signal `k`.
pub open spec fn without(set: SignalSet, k: int) -> SignalSet {
    SignalSet(set.0 & !(1usize << (k as usize)))
}

impl SignalImpl {
    /// Only signals up to [`MAX_SIG`] can have been received.
    pub open spec fn wf(&self) -> bool {
        forall|k: int| #[trigger] self.received.contains(k) ==> k <= MAX_SIG
    }

    /// The signal that handling would take next: the lowest received signal
    /// that is not masked.
    pub open spec fn pending(&self) -> Option<int> {
        if exists|k: int| self.received.first_outside(self.mask, k) {
            Some(choose|k: int| self.received.first_outside(self.mask, k))
        } else {
            None
        }
    }

    /// The handler slot of signal `k`.
    pub open spec fn action_slot(&self, k: int) -> Option<SignalAction> {
        self.actions@[k]
    }

    /// What [`SignalImpl::get_action_ref`] answers for `signum`.
    pub open spec fn spec_get_action(&self, signum: usize) -> Option<SignalAction> {
        if signum == SIGKILL || signum == SIGSTOP {
            None
        } else {
            Some(
                match self.action_slot(signum as int) {
                    Some(a) => a,
                    None => SignalAction::spec_default(),
                },
            )
        }
    }

    /// The state after [`SignalImpl::set_action`] succeeded for `signum`.
    pub open spec fn spec_with_action(&self, signum: usize, action: SignalAction) -> SignalImpl {
        SignalImpl { actions: spec_array_update(self.actions, signum as int, Some(action)), ..*self }
    }

    /// The effect of handling signals while the running thread has context `ctx`.
    pub open spec fn spec_handle(&self, ctx: LocalContext) -> HandleOutcome {
        match self.handling {
            Some(HandlingSignal::Frozen) => {
                if self.received.contains(SIGCONT as int) && !self.mask.contains(SIGCONT as int) {
                    HandleOutcome {
                        state: SignalImpl {
                            received: without(self.received, SIGCONT as int),
                            handling: None,
                            ..*self
                        },
                        result: SignalResult::Handled,
                        context: ctx@,
                    }
                } else {
                    HandleOutcome { state: *self, result: SignalResult::ProcessSuspended, context: ctx@ }
                }
            },
            Some(HandlingSignal::UserSignal(_)) => HandleOutcome {
                state: *self,
                result: SignalResult::IsHandlingSignal,
                context: ctx@,
            },
            None => match self.pending() {
                None => HandleOutcome { state: *self, result: SignalResult::NoSignal, context: ctx@ },
                Some(k) => {
                    let taken = SignalImpl { received: without(self.received, k), ..*self };
                    if k == SIGKILL {
                        HandleOutcome {
                            state: taken,
                            result: SignalResult::ProcessKilled((-(SIGKILL as int)) as i32),
                            context: ctx@,
                        }
                    } else if k == SIGSTOP {
                        HandleOutcome {
                            state: SignalImpl { handling: Some(HandlingSignal::Frozen), ..taken },
                            result: SignalResult::ProcessSuspended,
                            context: ctx@,
                        }
                    } else {
                        match self.action_slot(k) {
                            Some(a) => HandleOutcome {
                                state: SignalImpl {
                                    handling: Some(HandlingSignal::UserSignal(ctx)),
                                    ..taken
                                },
                                result: SignalResult::Handled,
                                context: ContextState {
                                    sepc: a.handler,
                                    regs: ctx@.regs.update(9, k as usize),
                                    ..ctx@
                                },
                            },
                            None => HandleOutcome {
                                state: taken,
                                result: DefaultAction::spec_of(k as usize).spec_result(),
                                context: ctx@,
                            },
                        }
                    }
                },
            },
        }
    }

    /// The saved context a return from a user handler goes back to.
    pub open spec fn spec_saved_context(&self) -> Option<LocalContext> {
        match self.handling {
            Some(HandlingSignal::UserSignal(c)) => Some(c),
            _ => None,
        }
    }

    /// A state with nothing received, nothing masked and no handler.
    pub fn new() -> (r: Self)
        ensures
            r.wf(),
            r.received.0 == 0,
            r.mask.0 == 0,
            r.handling is None,
            forall|k: int| 0 <= k < SIG_SLOTS ==> #[trigger] r.action_slot(k) is None,
    {
        let received = SignalSet::empty();
        let mask = SignalSet::empty();
        SignalImpl { received, mask, handling: None, actions: [None; SIG_SLOTS] }
    }

    /// Takes the lowest received signal that is not masked out of the
    /// received set, if there is one.
    pub fn fetch_signal(&mut self) -> (r: Option<usize>)
        requires
            old(self).wf(),
        ensures
            final(self).wf(),
            r matches Some(k) ==> old(self).received.first_outside(old(self).mask, k as int),
            r matches Some(k) ==> old(self).pending() == Some(k as int) && *final(self) == (
            SignalImpl { received: without(old(self).received, k as int), ..*old(self) }),
            r is None ==> old(self).pending() is None && *final(self) == *old(self),
    {
        let found = self.received.find_first_one(self.mask);
        match found {
            Some(num) => {
                proof {
                    lemma_pending_unique(*self, num as int);
                }
                self.received.remove_bit(num);
                Some(num)
            },
            None => None,
        }
    }

    /// Takes `signum` out of the received set if it was received and is not
    /// masked; tells whether it did.
    pub fn fetch_and_remove(&mut self, signum: usize) -> (r: bool)
        requires
            old(self).wf(),
            signum < usize::BITS,
        ensures
            final(self).wf(),
            r == (old(self).received.contains(signum as int) && !old(self).mask.contains(
                signum as int,
            )),
            r ==> *final(self) == (SignalImpl {
                received: without(old(self).received, signum as int),
                ..*old(self)
            }),
            !r ==> *final(self) == *old(self),
    {
        if self.received.contain_bit(signum) && !self.mask.contain_bit(signum) {
            self.received.remove_bit(signum);
            true
        } else {
            false
        }
    }

    /// The signal state of a forked process: the same mask and handlers,
    /// nothing received and nothing being handled.
    pub fn from_fork(&self) -> (r: SignalImpl)
        ensures
            r.wf(),
            r.received.0 == 0,
            r.mask == self.mask,
            r.handling is None,
            r.actions == self.actions,
    {
        SignalImpl {
            received: SignalSet::empty(),
            mask: self.mask,
            handling: None,
            actions: self.actions,
        }
    }

    /// Removes every handler, as an exec of a new program does.
    pub fn clear(&mut self)
        requires
            old(self).wf(),
        ensures
            final(self).wf(),
            final(self).received == old(self).received,
            final(self).mask == old(self).mask,
            final(self).handling == old(self).handling,
            forall|k: int| 0 <= k < SIG_SLOTS ==> #[trigger] final(self).action_slot(k) is None,
    {
        let mut i: usize = 0;
        while i < SIG_SLOTS
            invariant
                i <= SIG_SLOTS,
                self.wf(),
                self.received == old(self).received,
                self.mask == old(self).mask,
                self.handling == old(self).handling,
                forall|k: int| 0 <= k < i ==> #[trigger] self.action_slot(k) is None,
            decreases SIG_SLOTS - i,
        {
            let ghost before = *self;
            self.actions[i] = None;
            assert(self.actions@ == before.actions@.update(i as int, None));
            assert forall|k: int| 0 <= k < i + 1 implies #[trigger] self.action_slot(k) is None by {
                if k < i {
                    assert(before.action_slot(k) is None);
                }
            }
            i += 1;
        }
    }

    /// Records that signal `signum` was received.
    pub fn add_signal(&mut self, signum: usize)
        requires
            old(self).wf(),
            signum <= MAX_SIG,
        ensures
            final(self).wf(),
            *final(self) == (SignalImpl {
                received: SignalSet(old(self).received.0 | (1usize << signum)),
                ..*old(self)
            }),
            forall|k: int| #[trigger] final(self).received.contains(k) == (old(
                self,
            ).received.contains(k) || k == signum),
    {
        self.received.add_bit(signum);
    }

    /// Whether a signal is being handled.
    pub fn is_handling_signal(&self) -> (r: bool)
        ensures
            r == self.handling is Some,
    {
        self.handling.is_some()
    }

    /// Sets the handler of `signum`. The kill and stop signals keep their
    /// fixed behaviour: for them nothing changes and the answer is `false`.
    pub fn set_action(&mut self, signum: usize, action: &SignalAction) -> (r: bool)
        requires
            old(self).wf(),
            signum <= MAX_SIG,
        ensures
            final(self).wf(),
            r == !(signum == SIGKILL || signum == SIGSTOP),
            r ==> *final(self) == old(self).spec_with_action(signum, *action),
            !r ==> *final(self) == *old(self),
    {
        if signum == SIGKILL || signum == SIGSTOP {
            false
        } else {
            self.actions[signum] = Some(*action);
            true
        }
    }

    /// The handler of `signum`: none for the kill and stop signals, the
    /// default action for a signal with no handler set.
    pub fn get_action_ref(&self, signum: usize) -> (r: Option<SignalAction>)
        requires
            signum <= MAX_SIG,
        ensures
            r == self.spec_get_action(signum),
    {
        if signum == SIGKILL || signum == SIGSTOP {
            None
        } else {
            Some(self.actions[signum].unwrap_or(SignalAction::default()))
        }
    }

    /// Replaces the signal mask and returns the former one.
    pub fn update_mask(&mut self, mask: usize) -> (old_mask: usize)
        requires
            old(self).wf(),
        ensures
            final(self).wf(),
            old_mask == old(self).mask.0,
            *final(self) == (SignalImpl { mask: SignalSet(mask), ..*old(self) }),
    {
        self.mask.set_new(SignalSet(mask))
    }

    /// Decides what the pending signals do to the process whose running
    /// thread has context `current_context`.
    pub fn handle_signals(&mut self, current_context: &mut LocalContext) -> (r: SignalResult)
        requires
            old(self).wf(),
        ensures
            final(self).wf(),
            r == old(self).spec_handle(*old(current_context)).result,
            *final(self) == old(self).spec_handle(*old(current_context)).state,
            final(current_context)@ == old(self).spec_handle(*old(current_context)).context,
    {
        match self.handling {
            Some(HandlingSignal::Frozen) => {
                if self.fetch_and_remove(SIGCONT) {
                    self.handling = None;
                    SignalResult::Handled
                } else {
                    SignalResult::ProcessSuspended
                }
            },
            Some(HandlingSignal::UserSignal(_)) => SignalResult::IsHandlingSignal,
            None => {
                let fetched = self.fetch_signal();
                match fetched {
                    Some(signal) => {
                        if signal == SIGKILL {
                            SignalResult::ProcessKilled(-(signal as i32))
                        } else if signal == SIGSTOP {
                            self.handling = Some(HandlingSignal::Frozen);
                            SignalResult::ProcessSuspended
                        } else {
                            match self.actions[signal] {
                                Some(action) => {
                                    self.handling = Some(
                                        HandlingSignal::UserSignal(*current_context),
                                    );
                                    *current_context.pc_mut() = action.handler;
                                    *current_context.a_mut(0) = signal;
                                    SignalResult::Handled
                                },
                                None => DefaultAction::from_signal(signal).into_result(),
                            }
                        }
                    },
                    None => SignalResult::NoSignal,
                }
            },
        }
    }

    /// Returns from a user handler: the interrupted context comes back and
    /// the answer is `true`. When no user handler runs nothing changes and
    /// the answer is `false`.
    pub fn sig_return(&mut self, current_context: &mut LocalContext) -> (r: bool)
        requires
            old(self).wf(),
        ensures
            final(self).wf(),
            r == old(self).spec_saved_context() is Some,
            r ==> *final(current_context) == old(self).spec_saved_context()->Some_0
                && *final(self) == (SignalImpl { handling: None, ..*old(self) }),
            !r ==> *final(current_context) == *old(current_context) && *final(self) == *old(self),
    {
        let handling_signal = self.handling.take();
        match handling_signal {
            Some(HandlingSignal::UserSignal(old_ctx)) => {
                *current_context = old_ctx;
                true
            },
            _ => {
                self.handling = handling_signal;
                false
            },
        }
    }
}

/// A handler set for a signal other than kill and stop is the one the
/// signal's handler query answers afterwards; the other signals' answers do
/// not change.
pub proof fn law_set_then_get(s: SignalImpl, signum: usize, action: SignalAction, other: usize)
    requires
        signum <= MAX_SIG,
        other <= MAX_SIG,
        signum != SIGKILL,
        signum != SIGSTOP,
        other != signum,
    ensures
        s.spec_with_action(signum, action).spec_get_action(signum) == Some(action),
        s.spec_with_action(signum, action).spec_get_action(other) == s.spec_get_action(other),
{
}

/// Delivering a signal to its user handler keeps the interrupted context,
/// redirects the thread to the handler with the signal number in `a0`, and
/// the return from the handler gives back exactly the interrupted context.
pub proof fn law_handler_round_trip(s: SignalImpl, ctx: LocalContext, k: int)
    requires
        s.wf(),
        s.handling is None,
        s.pending() == Some(k),
        k != SIGKILL,
        k != SIGSTOP,
        s.action_slot(k) is Some,
    ensures
        s.spec_handle(ctx).result == SignalResult::Handled,
        s.spec_handle(ctx).context.sepc == s.action_slot(k)->Some_0.handler,
        s.spec_handle(ctx).context.regs == ctx@.regs.update(9, k as usize),
        s.spec_handle(ctx).state.spec_saved_context() == Some(ctx),
        s.spec_handle(ctx).state.wf(),
{
    let c = choose|c: int| s.received.first_outside(s.mask, c);
    assert(s.received.first_outside(s.mask, k));
    lemma_received_after_without(s.received, k);
}

/// A pending kill signal ends the process whatever handlers are set.
pub proof fn law_kill_ends_process(s: SignalImpl, ctx: LocalContext)
    requires
        s.handling is None,
        s.pending() == Some(SIGKILL as int),
    ensures
        s.spec_handle(ctx).result == SignalResult::ProcessKilled(-9i32),
{
}

/// A stopped process resumes exactly when the continue signal has been
/// received and is not masked.
pub proof fn law_continue_resumes(s: SignalImpl, ctx: LocalContext)
    requires
        s.handling == Some(HandlingSignal::Frozen),
    ensures
        (s.spec_handle(ctx).result == SignalResult::Handled) == (s.received.contains(SIGCONT as int)
            && !s.mask.contains(SIGCONT as int)),
        (s.spec_handle(ctx).result == SignalResult::ProcessSuspended) == !(s.received.contains(
            SIGCONT as int,
        ) && !s.mask.contains(SIGCONT as int)),
{
}

proof fn lemma_received_after_without(set: SignalSet, k: int)
    requires
        0 <= k < usize::BITS,
    ensures
        forall|j: int| #[trigger] without(set, k).contains(j) == (set.contains(j) && j != k),
{
    assert forall|j: int| #[trigger] without(set, k).contains(j) == (set.contains(j) && j != k) by {
        if 0 <= j < usize::BITS {
            let x = set.0;
            let kk = k as usize;
            let jj = j as usize;
            assert(((x & !(1usize << kk)) >> jj) & 1usize == (if jj == kk { 0usize } else { (x >> jj) & 1usize }))
                by (bit_vector)
                requires kk < usize::BITS, jj < usize::BITS;
            assert((x >> jj) & 1usize == 0usize || (x >> jj) & 1usize == 1usize) by (bit_vector);
        }
    }
}

proof fn lemma_pending_unique(s: SignalImpl, k: int)
    requires
        s.received.first_outside(s.mask, k),
    ensures
        s.pending() == Some(k),
{
    let c = choose|c: int| s.received.first_outside(s.mask, c);
    if c < k {
        assert(s.received.contains(c) && !s.mask.contains(c));
    } else if k < c {
        assert(s.received.contains(k) && !s.mask.contains(k));
    }
}

proof fn lemma_lowest_exists(set: SignalSet, mask: SignalSet, k: int)
    requires
        set.contains(k),
        !mask.contains(k),
    ensures
        exists|m: int| set.first_outside(mask, m),
    decreases k,
{
    if forall|j: int| 0 <= j < k ==> !(#[trigger] set.contains(j) && !mask.contains(j)) {
        assert(set.first_outside(mask, k));
    } else {
        let j = choose|j: int| 0 <= j < k && (#[trigger] set.contains(j) && !mask.contains(j));
        lemma_lowest_exists(set, mask, j);
    }
}

/// When no signal is being handled, handling takes at most one signal out
/// of the received set and nothing else: it answers [`SignalResult::NoSignal`]
/// exactly when every received signal is masked, and then nothing changes;
/// otherwise one received, unmasked signal `k` is no longer received
/// afterwards, every other signal stays as it was, and the mask and the
/// handlers are kept.
pub proof fn law_handling_takes_one_signal(s: SignalImpl, ctx: LocalContext)
    requires
        s.wf(),
        s.handling is None,
    ensures
        (s.spec_handle(ctx).result == SignalResult::NoSignal) == !s.received.has_outside(s.mask),
        s.spec_handle(ctx).state.mask == s.mask,
        s.spec_handle(ctx).state.actions == s.actions,
        !s.received.has_outside(s.mask) ==> s.spec_handle(ctx).state.received == s.received,
        s.received.has_outside(s.mask) ==> exists|k: int|
            #![trigger s.received.contains(k)]
            {
                &&& s.received.contains(k)
                &&& !s.mask.contains(k)
                &&& forall|j: int| #[trigger] s.spec_handle(ctx).state.received.contains(j)
                    == (s.received.contains(j) && j != k)
            },
{
    if s.received.has_outside(s.mask) {
        let k0 = choose|k: int| #[trigger] s.received.contains(k) && !s.mask.contains(k);
        lemma_lowest_exists(s.received, s.mask, k0);
        let k = choose|k: int| s.received.first_outside(s.mask, k);
        lemma_pending_unique(s, k);
        assert(k <= MAX_SIG);
        lemma_received_after_without(s.received, k);
        assert(s.spec_handle(ctx).state.received == without(s.received, k));
        assert(s.received.contains(k));
    } else {
        if exists|k: int| s.received.first_outside(s.mask, k) {
            let k = choose|k: int| s.received.first_outside(s.mask, k);
            assert(s.received.contains(k) && !s.mask.contains(k));
        }
        assert(s.pending() is None);
    }
}

/// A signal delivered to its user handler is delivered once: with `k` the
/// only received signal that is not masked and a handler set for it,
/// handling it runs the handler, and once the handler returns, handling
/// again finds nothing to deliver, whatever context the thread then has.
pub proof fn law_delivered_once(s: SignalImpl, ctx: LocalContext, back: LocalContext, k: int)
    requires
        s.wf(),
        s.handling is None,
        s.received.contains(k),
        !s.mask.contains(k),
        forall|j: int| j != k ==> !(#[trigger] s.received.contains(j) && !s.mask.contains(j)),
        k != SIGKILL,
        k != SIGSTOP,
        s.action_slot(k) is Some,
    ensures
        s.spec_handle(ctx).result == SignalResult::Handled,
        s.spec_handle(ctx).state.spec_saved_context() == Some(ctx),
        (SignalImpl { handling: None, ..s.spec_handle(ctx).state }).spec_handle(back).result
            == SignalResult::NoSignal,
{
    law_handling_takes_one_signal(s, ctx);
    assert(s.received.has_outside(s.mask));
    let s1 = s.spec_handle(ctx).state;
    let s2 = SignalImpl { handling: None, ..s1 };
    assert(s.received.first_outside(s.mask, k));
    lemma_pending_unique(s, k);
    lemma_received_after_without(s.received, k);
    assert forall|j: int| !(#[trigger] s2.received.contains(j) && !s2.mask.contains(j)) by {
        assert(s2.received.contains(j) == (s.received.contains(j) && j != k));
    }
    assert(s2.wf());
    law_handling_takes_one_signal(s2, back);
}

} // verus!
