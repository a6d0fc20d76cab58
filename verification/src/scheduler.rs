//! The trigger scheduler: turns the trigger signals of several producers
//! into synchronization passes that never overlap.
//!
//! The scheduler is a state machine. Its host receives the signals, tells the
//! scheduler what it saw, one event at a time, and does what the scheduler
//! answers. A burst of triggers that arrives while a pass is in flight is
//! dropped: the pass that the next trigger starts reads the whole state from
//! disk again, so no change is lost with a dropped signal.

use vstd::prelude::*;

verus! {

/// Where the scheduler stands.
#[derive(Clone, Copy, Debug, PartialEq, Eq, Hash, Structural)]
pub enum SchedulerState {
    /// No pass is executing.
    Idle,
    /// One pass is executing.
    Running,
    /// Shutdown was requested while a pass was executing; the scheduler lets
    /// it finish.
    Draining,
    /// The scheduler has ended; it starts nothing any more.
    Stopped,
}

/// What the host observed.
#[derive(Clone, Copy, Debug, PartialEq, Eq, Hash, Structural)]
pub enum SchedulerEvent {
    /// A producer asked for a pass.
    Trigger,
    /// The worker reports that the pass in flight has ended, be it with
    /// success or with failures.
    PassCompleted,
    /// No trigger is pending; `running` is the run flag as it reads now.
    Quiet { running: bool },
    /// The channel from the producers is lost.
    Disconnected,
}

/// What the host has to do.
#[derive(Clone, Copy, Debug, PartialEq, Eq, Hash, Structural)]
pub enum SchedulerAction {
    /// Hand one pass to the worker.
    StartPass,
    /// Drop the trigger: a pass is in flight, or the scheduler is on its way
    /// out.
    Discard,
    /// Nothing to do; observe again.
    Wait,
    /// End the loop and release the worker.
    Stop,
    /// End the loop at once and clear the run flag: the wiring is broken.
    Abort,
}

/// The scheduler's transition: the state after `event`, and the action that
/// answers it.
pub open spec fn transition(state: SchedulerState, event: SchedulerEvent) -> (
    SchedulerState,
    SchedulerAction,
) {
    match state {
        SchedulerState::Stopped => (SchedulerState::Stopped, SchedulerAction::Stop),
        SchedulerState::Idle => match event {
            SchedulerEvent::Trigger => (SchedulerState::Running, SchedulerAction::StartPass),
            SchedulerEvent::PassCompleted => (SchedulerState::Idle, SchedulerAction::Wait),
            SchedulerEvent::Quiet { running } => if running {
                (SchedulerState::Idle, SchedulerAction::Wait)
            } else {
                (SchedulerState::Stopped, SchedulerAction::Stop)
            },
            SchedulerEvent::Disconnected => (SchedulerState::Stopped, SchedulerAction::Abort),
        },
        SchedulerState::Running => match event {
            SchedulerEvent::Trigger => (SchedulerState::Running, SchedulerAction::Discard),
            SchedulerEvent::PassCompleted => (SchedulerState::Idle, SchedulerAction::Wait),
            SchedulerEvent::Quiet { running } => if running {
                (SchedulerState::Running, SchedulerAction::Wait)
            } else {
                (SchedulerState::Draining, SchedulerAction::Wait)
            },
            SchedulerEvent::Disconnected => (SchedulerState::Stopped, SchedulerAction::Abort),
        },
        SchedulerState::Draining => match event {
            SchedulerEvent::Trigger => (SchedulerState::Draining, SchedulerAction::Discard),
            SchedulerEvent::PassCompleted => (SchedulerState::Stopped, SchedulerAction::Stop),
            SchedulerEvent::Quiet { running } => (SchedulerState::Draining, SchedulerAction::Wait),
            SchedulerEvent::Disconnected => (SchedulerState::Stopped, SchedulerAction::Abort),
        },
    }
}

/// Whether a pass is in flight in `state`.
pub open spec fn busy(state: SchedulerState) -> bool {
    state == SchedulerState::Running || state == SchedulerState::Draining
}

/// The number of passes in flight in `state`: one or none.
pub open spec fn in_flight(state: SchedulerState) -> nat {
    if busy(state) {
        1
    } else {
        0
    }
}

/// The state after a whole sequence of events.
pub open spec fn state_after(state: SchedulerState, events: Seq<SchedulerEvent>) -> SchedulerState
    decreases events.len(),
{
    if events.len() == 0 {
        state
    } else {
        state_after(transition(state, events[0]).0, events.skip(1))
    }
}

/// How many passes the scheduler starts over a sequence of events.
pub open spec fn passes_started(state: SchedulerState, events: Seq<SchedulerEvent>) -> nat
    decreases events.len(),
{
    if events.len() == 0 {
        0
    } else {
        let (next, action) = transition(state, events[0]);
        let here: nat = if action == SchedulerAction::StartPass {
            1
        } else {
            0
        };
        here + passes_started(next, events.skip(1))
    }
}

/// How many passes end over a sequence of events: the completions reported
/// while a pass was in flight.
pub open spec fn passes_completed(state: SchedulerState, events: Seq<SchedulerEvent>) -> nat
    decreases events.len(),
{
    if events.len() == 0 {
        0
    } else {
        let here: nat = if busy(state) && events[0] == SchedulerEvent::PassCompleted {
            1
        } else {
            0
        };
        here + passes_completed(transition(state, events[0]).0, events.skip(1))
    }
}

/// A burst of `n` triggers and nothing else.
pub open spec fn burst(n: nat) -> Seq<SchedulerEvent> {
    Seq::new(n, |i: int| SchedulerEvent::Trigger)
}

/// The scheduler that a coordinator owns.
#[derive(Debug)]
pub struct TriggerScheduler {
    pub state: SchedulerState,
}

impl TriggerScheduler {
    /// A scheduler with no pass in flight.
    pub fn new() -> (scheduler: TriggerScheduler)
        ensures
            scheduler.state == SchedulerState::Idle,
    {
        TriggerScheduler { state: SchedulerState::Idle }
    }

    /// Whether a pass is in flight.
    pub fn is_busy(&self) -> (b: bool)
        ensures
            b == busy(self.state),
    {
        match self.state {
            SchedulerState::Running | SchedulerState::Draining => true,
            SchedulerState::Idle | SchedulerState::Stopped => false,
        }
    }

    /// Whether the scheduler has ended.
    pub fn is_stopped(&self) -> (b: bool)
        ensures
            b == (self.state == SchedulerState::Stopped),
    {
        match self.state {
            SchedulerState::Stopped => true,
            _ => false,
        }
    }

    /// Takes one event and answers with the action it calls for.
    ///
    /// A trigger starts a pass only when none is in flight, and is dropped
    /// otherwise. With the run flag cleared and nothing pending the
    /// scheduler ends, after the pass in flight, if there is one.
    pub fn step(&mut self, event: SchedulerEvent) -> (action: SchedulerAction)
        ensures
            (final(self).state, action) == transition(old(self).state, event),
    {
        let (next, action) = match self.state {
            SchedulerState::Stopped => (SchedulerState::Stopped, SchedulerAction::Stop),
            SchedulerState::Idle => match event {
                SchedulerEvent::Trigger => (SchedulerState::Running, SchedulerAction::StartPass),
                SchedulerEvent::PassCompleted => (SchedulerState::Idle, SchedulerAction::Wait),
                SchedulerEvent::Quiet { running: true } => (
                    SchedulerState::Idle,
                    SchedulerAction::Wait,
                ),
                SchedulerEvent::Quiet { running: false } => (
                    SchedulerState::Stopped,
                    SchedulerAction::Stop,
                ),
                SchedulerEvent::Disconnected => (SchedulerState::Stopped, SchedulerAction::Abort),
            },
            SchedulerState::Running => match event {
                SchedulerEvent::Trigger => (SchedulerState::Running, SchedulerAction::Discard),
                SchedulerEvent::PassCompleted => (SchedulerState::Idle, SchedulerAction::Wait),
                SchedulerEvent::Quiet { running: true } => (
                    SchedulerState::Running,
                    SchedulerAction::Wait,
                ),
                SchedulerEvent::Quiet { running: false } => (
                    SchedulerState::Draining,
                    SchedulerAction::Wait,
                ),
                SchedulerEvent::Disconnected => (SchedulerState::Stopped, SchedulerAction::Abort),
            },
            SchedulerState::Draining => match event {
                SchedulerEvent::Trigger => (SchedulerState::Draining, SchedulerAction::Discard),
                SchedulerEvent::PassCompleted => (SchedulerState::Stopped, SchedulerAction::Stop),
                SchedulerEvent::Quiet { .. } => (SchedulerState::Draining, SchedulerAction::Wait),
                SchedulerEvent::Disconnected => (SchedulerState::Stopped, SchedulerAction::Abort),
            },
        };
        self.state = next;
        action
    }
}

/// A pass is started only when none is in flight, and it is in flight from
/// then on.
pub proof fn lemma_start_needs_idle(state: SchedulerState, event: SchedulerEvent)
    ensures
        transition(state, event).1 == SchedulerAction::StartPass <==> (state
            == SchedulerState::Idle && event == SchedulerEvent::Trigger),
        transition(state, event).1 == SchedulerAction::StartPass ==> transition(state, event).0
            == SchedulerState::Running,
{
}

/// A pass in flight stays in flight until its completion is reported or the
/// wiring breaks: no other event ends it.
pub proof fn lemma_pass_runs_to_completion(state: SchedulerState, event: SchedulerEvent)
    requires
        busy(state),
        event != SchedulerEvent::PassCompleted,
        event != SchedulerEvent::Disconnected,
    ensures
        busy(transition(state, event).0),
{
}

/// A scheduler that has ended starts no pass, whatever arrives.
pub proof fn lemma_stopped_starts_nothing(events: Seq<SchedulerEvent>)
    ensures
        passes_started(SchedulerState::Stopped, events) == 0,
        state_after(SchedulerState::Stopped, events) == SchedulerState::Stopped,
    decreases events.len(),
{
    if events.len() > 0 {
        lemma_stopped_starts_nothing(events.skip(1));
    }
}

/// A shutdown that finds a pass in flight lets it finish: from then on no
/// pass is started, and the scheduler ends with the completion of the pass,
/// not before, unless the wiring breaks.
pub proof fn lemma_drain_lets_the_pass_finish(events: Seq<SchedulerEvent>)
    ensures
        transition(SchedulerState::Running, SchedulerEvent::Quiet { running: false }).0
            == SchedulerState::Draining,
        passes_started(SchedulerState::Draining, events) == 0,
        state_after(SchedulerState::Draining, events) == SchedulerState::Draining || state_after(
            SchedulerState::Draining,
            events,
        ) == SchedulerState::Stopped,
        (forall|i: int|
            0 <= i < events.len() ==> events[i] != SchedulerEvent::PassCompleted && events[i]
                != SchedulerEvent::Disconnected) ==> state_after(SchedulerState::Draining, events)
            == SchedulerState::Draining,
    decreases events.len(),
{
    if events.len() > 0 {
        let rest = events.skip(1);
        lemma_drain_lets_the_pass_finish(rest);
        lemma_stopped_starts_nothing(rest);
        if forall|i: int|
            0 <= i < events.len() ==> events[i] != SchedulerEvent::PassCompleted && events[i]
                != SchedulerEvent::Disconnected {
            assert forall|i: int| 0 <= i < rest.len() implies rest[i]
                != SchedulerEvent::PassCompleted && rest[i] != SchedulerEvent::Disconnected by {
                assert(rest[i] == events[i + 1]);
            }
        }
    }
}

/// Passes never overlap: over any sequence of events, from any state, the
/// passes started exceed the passes completed by one at most, the pass in
/// flight at the outset counted among the started.
pub proof fn lemma_passes_never_overlap(state: SchedulerState, events: Seq<SchedulerEvent>)
    ensures
        in_flight(state) + passes_started(state, events) <= passes_completed(state, events) + 1,
        in_flight(state) + passes_started(state, events) >= passes_completed(state, events)
            + in_flight(state_after(state, events)),
    decreases events.len(),
{
    if events.len() > 0 {
        lemma_passes_never_overlap(transition(state, events[0]).0, events.skip(1));
        lemma_stopped_starts_nothing(events.skip(1));
    }
}

/// However many triggers arrive while a pass is in flight, none of them
/// starts a pass, and with the completion the scheduler is idle again: the
/// next trigger starts one pass.
pub proof fn lemma_burst_while_running(n: nat)
    ensures
        state_after(SchedulerState::Running, burst(n)) == SchedulerState::Running,
        passes_started(SchedulerState::Running, burst(n)) == 0,
        state_after(SchedulerState::Running, burst(n).push(SchedulerEvent::PassCompleted))
            == SchedulerState::Idle,
        passes_started(SchedulerState::Running, burst(n).push(SchedulerEvent::PassCompleted))
            == 0,
        transition(SchedulerState::Idle, SchedulerEvent::Trigger) == (
            SchedulerState::Running,
            SchedulerAction::StartPass,
        ),
    decreases n,
{
    let done = burst(n).push(SchedulerEvent::PassCompleted);
    if n == 0 {
        assert(done.skip(1) =~= Seq::<SchedulerEvent>::empty());
        assert(state_after(SchedulerState::Idle, done.skip(1)) == SchedulerState::Idle);
        assert(passes_started(SchedulerState::Idle, done.skip(1)) == 0);
    } else {
        lemma_burst_while_running((n - 1) as nat);
        assert(burst(n).skip(1) =~= burst((n - 1) as nat));
        assert(done.skip(1) =~= burst((n - 1) as nat).push(SchedulerEvent::PassCompleted));
    }
}

/// A burst of triggers that finds the scheduler idle starts one pass, not
/// one for each trigger.
pub proof fn lemma_burst_while_idle(n: nat)
    requires
        n > 0,
    ensures
        state_after(SchedulerState::Idle, burst(n)) == SchedulerState::Running,
        passes_started(SchedulerState::Idle, burst(n)) == 1,
{
    lemma_burst_while_running((n - 1) as nat);
    assert(burst(n).skip(1) =~= burst((n - 1) as nat));
}

} // verus!
