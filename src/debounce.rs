use vstd::prelude::*;

verus! {

/// What drives the refresh scheduler.
#[derive(Clone, Copy, Debug, PartialEq, Eq, Structural)]
pub enum RefreshEvent {
    /// The server reported some change.
    Notification,
    /// The coalescing window that the first notification opened has passed.
    TimerExpired,
    /// The running reconciliation pass is done.
    PassFinished,
}

/// What the caller is to do after an event.
#[derive(Clone, Copy, Debug, PartialEq, Eq, Structural)]
pub enum RefreshAction {
    Nothing,
    /// Start the coalescing timer.
    ArmTimer,
    /// Run one reconciliation pass.
    StartPass,
}

/// Turns bursts of change notifications into single reconciliation passes,
/// never two at once. A notification opens a window of fixed length; the
/// others within it are absorbed; when it closes one pass runs, or, if a pass
/// is still running, exactly one more runs after it.
#[derive(Clone, Copy, Debug, PartialEq, Eq, Structural)]
pub struct RefreshScheduler {
    pub timer_armed: bool,
    pub pass_running: bool,
    pub rerun_pending: bool,
}

impl RefreshScheduler {
    pub open spec fn wf(self) -> bool {
        self.rerun_pending ==> self.pass_running
    }

    pub open spec fn idle(self) -> bool {
        !self.timer_armed && !self.pass_running && !self.rerun_pending
    }

    pub open spec fn step(self, e: RefreshEvent) -> (RefreshScheduler, RefreshAction) {
        match e {
            RefreshEvent::Notification => if self.timer_armed {
                (self, RefreshAction::Nothing)
            } else {
                (RefreshScheduler { timer_armed: true, ..self }, RefreshAction::ArmTimer)
            },
            RefreshEvent::TimerExpired => if self.pass_running {
                (RefreshScheduler { timer_armed: false, rerun_pending: true, ..self }, RefreshAction::Nothing)
            } else {
                (RefreshScheduler { timer_armed: false, pass_running: true, ..self }, RefreshAction::StartPass)
            },
            RefreshEvent::PassFinished => if self.rerun_pending {
                (RefreshScheduler { rerun_pending: false, pass_running: true, ..self }, RefreshAction::StartPass)
            } else {
                (RefreshScheduler { pass_running: false, ..self }, RefreshAction::Nothing)
            },
        }
    }

    pub fn new() -> (r: RefreshScheduler)
        ensures
            r.idle(),
            r.wf(),
    {
        RefreshScheduler { timer_armed: false, pass_running: false, rerun_pending: false }
    }

    pub fn on_event(&mut self, e: RefreshEvent) -> (r: RefreshAction)
        ensures
            (*final(self), r) == old(self).step(e),
            old(self).wf() ==> final(self).wf(),
    {
        match e {
            RefreshEvent::Notification => {
                if self.timer_armed {
                    RefreshAction::Nothing
                } else {
                    self.timer_armed = true;
                    RefreshAction::ArmTimer
                }
            },
            RefreshEvent::TimerExpired => {
                self.timer_armed = false;
                if self.pass_running {
                    self.rerun_pending = true;
                    RefreshAction::Nothing
                } else {
                    self.pass_running = true;
                    RefreshAction::StartPass
                }
            },
            RefreshEvent::PassFinished => {
                if self.rerun_pending {
                    self.rerun_pending = false;
                    self.pass_running = true;
                    RefreshAction::StartPass
                } else {
                    self.pass_running = false;
                    RefreshAction::Nothing
                }
            },
        }
    }
}

/// The state after a run of events.
pub open spec fn run_state(s: RefreshScheduler, events: Seq<RefreshEvent>) -> RefreshScheduler
    decreases events.len(),
{
    if events.len() == 0 {
        s
    } else {
        run_state(s, events.drop_last()).step(events.last()).0
    }
}

/// How many passes a run of events starts.
pub open spec fn passes_started(s: RefreshScheduler, events: Seq<RefreshEvent>) -> nat
    decreases events.len(),
{
    if events.len() == 0 {
        0
    } else {
        passes_started(s, events.drop_last()) + if run_state(s, events.drop_last()).step(events.last()).1
            == RefreshAction::StartPass {
            1nat
        } else {
            0nat
        }
    }
}

pub open spec fn notifications(k: nat) -> Seq<RefreshEvent> {
    Seq::new(k, |i: int| RefreshEvent::Notification)
}

pub open spec fn spaced_rounds(k: nat) -> Seq<RefreshEvent>
    decreases k,
{
    if k == 0 {
        Seq::empty()
    } else {
        spaced_rounds((k - 1) as nat) + seq![RefreshEvent::Notification, RefreshEvent::TimerExpired, RefreshEvent::PassFinished]
    }
}

/// Notifications only arm the timer: the first one arms it, the rest are absorbed.
proof fn lemma_notifications_absorbed(s: RefreshScheduler, k: nat)
    requires
        !s.timer_armed,
        k >= 1,
    ensures
        run_state(s, notifications(k)) == (RefreshScheduler { timer_armed: true, ..s }),
        passes_started(s, notifications(k)) == 0,
    decreases k,
{
    let prev = notifications((k - 1) as nat);
    assert(notifications(k) =~= prev.push(RefreshEvent::Notification));
    lemma_append_step(s, prev, RefreshEvent::Notification);
    if k > 1 {
        lemma_notifications_absorbed(s, (k - 1) as nat);
    } else {
        assert(prev =~= Seq::<RefreshEvent>::empty());
    }
}

proof fn lemma_append_step(s: RefreshScheduler, events: Seq<RefreshEvent>, e: RefreshEvent)
    ensures
        run_state(s, events.push(e)) == run_state(s, events).step(e).0,
        passes_started(s, events.push(e)) == passes_started(s, events) + if run_state(s, events).step(e).1
            == RefreshAction::StartPass {
            1nat
        } else {
            0nat
        },
{
    assert(events.push(e).drop_last() =~= events);
}

/// K notifications within one window, then the window closing, start exactly
/// one pass, for every K of at least one.
pub proof fn lemma_burst_coalesced(k: nat)
    requires
        k >= 1,
    ensures
        ({
            let s = RefreshScheduler { timer_armed: false, pass_running: false, rerun_pending: false };
            let events = notifications(k).push(RefreshEvent::TimerExpired);
            &&& passes_started(s, events) == 1
            &&& run_state(s, events).pass_running
            &&& !run_state(s, events).timer_armed
        }),
{
    let s = RefreshScheduler { timer_armed: false, pass_running: false, rerun_pending: false };
    lemma_notifications_absorbed(s, k);
    lemma_append_step(s, notifications(k), RefreshEvent::TimerExpired);
}

/// K notifications spaced farther apart than the window, each pass done
/// before the next notification, start K passes and leave the scheduler idle.
pub proof fn lemma_spaced_notifications(k: nat)
    ensures
        ({
            let s = RefreshScheduler { timer_armed: false, pass_running: false, rerun_pending: false };
            &&& passes_started(s, spaced_rounds(k)) == k
            &&& run_state(s, spaced_rounds(k)) == s
        }),
    decreases k,
{
    let s = RefreshScheduler { timer_armed: false, pass_running: false, rerun_pending: false };
    if k > 0 {
        let prev = spaced_rounds((k - 1) as nat);
        lemma_spaced_notifications((k - 1) as nat);
        let a = prev.push(RefreshEvent::Notification);
        let b = a.push(RefreshEvent::TimerExpired);
        let c = b.push(RefreshEvent::PassFinished);
        assert(c =~= spaced_rounds(k));
        lemma_append_step(s, prev, RefreshEvent::Notification);
        lemma_append_step(s, a, RefreshEvent::TimerExpired);
        lemma_append_step(s, b, RefreshEvent::PassFinished);
    }
}

/// A pass never starts while another runs: an event that starts one comes
/// when none is running, or is the end of the running one.
pub proof fn lemma_at_most_one_in_flight(s: RefreshScheduler, e: RefreshEvent)
    requires
        s.wf(),
    ensures
        s.step(e).1 == RefreshAction::StartPass ==> (!s.pass_running || e == RefreshEvent::PassFinished),
        s.step(e).1 == RefreshAction::StartPass ==> s.step(e).0.pass_running,
        s.step(e).0.wf(),
{
}

/// A refresh requested while a pass runs is not started beside it; it runs
/// exactly once, right after that pass ends.
pub proof fn lemma_request_during_pass(s: RefreshScheduler, k: nat)
    requires
        s.pass_running,
        !s.timer_armed,
        !s.rerun_pending,
        k >= 1,
    ensures
        ({
            let during = notifications(k).push(RefreshEvent::TimerExpired);
            let all = during.push(RefreshEvent::PassFinished);
            &&& passes_started(s, during) == 0
            &&& passes_started(s, all) == 1
            &&& run_state(s, all).pass_running
            &&& !run_state(s, all).rerun_pending
            &&& passes_started(s, all.push(RefreshEvent::PassFinished)) == 1
        }),
    decreases k,
{
    let during = notifications(k).push(RefreshEvent::TimerExpired);
    let all = during.push(RefreshEvent::PassFinished);
    lemma_notifications_absorbed(s, k);
    lemma_append_step(s, notifications(k), RefreshEvent::TimerExpired);
    lemma_append_step(s, during, RefreshEvent::PassFinished);
    lemma_append_step(s, all, RefreshEvent::PassFinished);
}

} // verus!
