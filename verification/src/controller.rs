//! The send loop controller: which record is sent next, when the loop
//! pauses, and when it is done. The caller performs each action and reports
//! what came of it.

use vstd::prelude::*;
use crate::dispatch::SendOutcome;

verus! {

/// What the loop was asked to do: `count` rounds over `record_count`
/// records with `interval` seconds between sends. A `count` of 0 asks for
/// rounds without end.
#[derive(Clone, Copy, Debug, PartialEq, Eq, Structural)]
pub struct LoopPlan {
    pub count: u64,
    pub interval: u64,
    pub record_count: usize,
}

/// Where the loop stands.
#[derive(Clone, Copy, Debug, PartialEq, Eq, Structural)]
pub enum Phase {
    /// The record at `index` is being sent.
    Sending,
    /// A pause is running; the record at `index` is sent after it.
    Waiting,
    /// The loop has ended.
    Done,
}

/// The counters of the loop.
#[derive(Clone, Copy, Debug, PartialEq, Eq, Structural)]
pub struct SendState {
    pub phase: Phase,
    /// How many sends have succeeded.
    pub sent_count: u64,
    /// How many rounds have been completed.
    pub round: u64,
    /// The position of the current record within the round.
    pub index: usize,
}

/// What the caller is to do next.
#[derive(Clone, Copy, Debug, PartialEq, Eq, Structural)]
pub enum Action {
    /// Transform and dispatch the record at `index`.
    Send { index: usize },
    /// Pause for `seconds` seconds.
    Sleep { seconds: u64 },
    /// Nothing more: the loop has ended.
    Stop,
}

/// What came of the last action.
#[derive(Clone, Copy, Debug, PartialEq, Eq, Structural)]
pub enum Event {
    /// The dispatch attempt ended with this outcome.
    Attempt(SendOutcome),
    /// The pause is over.
    Slept,
}

impl LoopPlan {
    /// How many successful sends end a bounded loop.
    pub open spec fn target(self) -> int {
        self.count * self.record_count
    }
}

impl SendState {
    /// The state at the start of the first round.
    pub open spec fn initial() -> SendState {
        SendState { phase: Phase::Sending, sent_count: 0, round: 0, index: 0 }
    }

    /// The current record is one of the batch, and the batch is not empty.
    pub open spec fn well_formed(self, plan: LoopPlan) -> bool {
        self.index < plan.record_count
    }

    /// Both counters can still grow by one.
    pub open spec fn has_headroom(self) -> bool {
        self.sent_count < u64::MAX && self.round < u64::MAX
    }

    /// The action that the state calls for.
    pub open spec fn pending_action(self, plan: LoopPlan) -> Action {
        match self.phase {
            Phase::Sending => Action::Send { index: self.index },
            Phase::Waiting => Action::Sleep { seconds: plan.interval },
            Phase::Done => Action::Stop,
        }
    }

    /// The state after a dispatch attempt on the current record that ended
    /// with `outcome`. A success is counted. Within a round the loop moves on
    /// to the next record, after a pause where an interval is set. At the end
    /// of a round a bounded loop that has reached its target is done; any
    /// other loop pauses and begins the next round.
    pub open spec fn after_attempt(self, plan: LoopPlan, outcome: SendOutcome) -> SendState {
        let sent: int = if outcome == SendOutcome::Sent {
            self.sent_count + 1
        } else {
            self.sent_count as int
        };
        if outcome == SendOutcome::Fatal {
            SendState { phase: Phase::Done, ..self }
        } else if self.index + 1 < plan.record_count {
            SendState {
                phase: if plan.interval > 0 {
                    Phase::Waiting
                } else {
                    Phase::Sending
                },
                sent_count: sent as u64,
                round: self.round,
                index: (self.index + 1) as usize,
            }
        } else if plan.count > 0 && sent >= plan.target() {
            SendState {
                phase: Phase::Done,
                sent_count: sent as u64,
                round: (self.round + 1) as u64,
                index: self.index,
            }
        } else {
            SendState {
                phase: Phase::Waiting,
                sent_count: sent as u64,
                round: (self.round + 1) as u64,
                index: 0,
            }
        }
    }

    /// The state after `event`. An event that does not answer the pending
    /// action changes nothing.
    pub open spec fn after(self, plan: LoopPlan, event: Event) -> SendState {
        match (self.phase, event) {
            (Phase::Sending, Event::Attempt(outcome)) => self.after_attempt(plan, outcome),
            (Phase::Waiting, Event::Slept) => SendState { phase: Phase::Sending, ..self },
            _ => self,
        }
    }
}

/// Begins the loop: the first record of the first round is to be sent.
pub fn start(plan: &LoopPlan) -> (r: (SendState, Action))
    requires
        plan.record_count > 0,
    ensures
        r.0 == SendState::initial(),
        r.0.well_formed(*plan),
        r.1 == (Action::Send { index: 0 }),
{
    (SendState { phase: Phase::Sending, sent_count: 0, round: 0, index: 0 }, Action::Send { index: 0 })
}

/// The action that `state` calls for.
pub fn pending(state: &SendState, plan: &LoopPlan) -> (r: Action)
    ensures
        r == state.pending_action(*plan),
{
    match state.phase {
        Phase::Sending => Action::Send { index: state.index },
        Phase::Waiting => Action::Sleep { seconds: plan.interval },
        Phase::Done => Action::Stop,
    }
}

/// Whether a bounded loop with `sent` successful sends has reached its
/// target.
fn target_reached(plan: &LoopPlan, sent: u64) -> (r: bool)
    ensures
        r == (plan.count > 0 && sent >= plan.target()),
{
    let count = plan.count as u128;
    let records = plan.record_count as u128;
    assert(count * records <= 0xffff_ffff_ffff_ffff * 0xffff_ffff_ffff_ffff) by (nonlinear_arith)
        requires
            0 <= count <= 0xffff_ffff_ffff_ffff,
            0 <= records <= 0xffff_ffff_ffff_ffff,
    ;
    plan.count > 0 && sent as u128 >= count * records
}

/// Takes the loop one step on: from the state and what came of the last
/// action to the next state and the next action.
pub fn step(state: SendState, plan: &LoopPlan, event: Event) -> (r: (SendState, Action))
    requires
        state.well_formed(*plan),
        state.has_headroom(),
    ensures
        r.0 == state.after(*plan, event),
        r.1 == r.0.pending_action(*plan),
        r.0.well_formed(*plan),
{
    let next = match (state.phase, event) {
        (Phase::Sending, Event::Attempt(outcome)) => {
            let sent: u64 = match outcome {
                SendOutcome::Sent => state.sent_count + 1,
                _ => state.sent_count,
            };
            match outcome {
                SendOutcome::Fatal => SendState {
                    phase: Phase::Done,
                    sent_count: state.sent_count,
                    round: state.round,
                    index: state.index,
                },
                _ => {
                    if state.index + 1 < plan.record_count {
                        SendState {
                            phase: if plan.interval > 0 {
                                Phase::Waiting
                            } else {
                                Phase::Sending
                            },
                            sent_count: sent,
                            round: state.round,
                            index: state.index + 1,
                        }
                    } else if target_reached(plan, sent) {
                        SendState {
                            phase: Phase::Done,
                            sent_count: sent,
                            round: state.round + 1,
                            index: state.index,
                        }
                    } else {
                        SendState {
                            phase: Phase::Waiting,
                            sent_count: sent,
                            round: state.round + 1,
                            index: 0,
                        }
                    }
                },
            }
        },
        (Phase::Waiting, Event::Slept) => SendState {
            phase: Phase::Sending,
            sent_count: state.sent_count,
            round: state.round,
            index: state.index,
        },
        _ => state,
    };
    (next, pending(&next, plan))
}

/// The state after the events `events`, taken in order.
pub open spec fn run(state: SendState, plan: LoopPlan, events: Seq<Event>) -> SendState
    decreases events.len(),
{
    if events.len() == 0 {
        state
    } else {
        run(state, plan, events.drop_last()).after(plan, events.last())
    }
}

/// A loop without a bound on its rounds never ends by itself: only an
/// attempt that is fatal ends it.
pub proof fn lemma_unbounded_loop_goes_on(state: SendState, plan: LoopPlan, event: Event)
    requires
        plan.count == 0,
        state.phase != Phase::Done,
        event != Event::Attempt(SendOutcome::Fatal),
    ensures
        state.after(plan, event).phase != Phase::Done,
{
}

/// A loop without a bound on its rounds is not done after any number of
/// events, as long as no attempt among them was fatal.
pub proof fn lemma_unbounded_run_goes_on(state: SendState, plan: LoopPlan, events: Seq<Event>)
    requires
        plan.count == 0,
        state.phase != Phase::Done,
        survivable(events),
    ensures
        run(state, plan, events).phase != Phase::Done,
    decreases events.len(),
{
    if events.len() > 0 {
        let earlier = events.drop_last();
        assert forall|i: int| 0 <= i < earlier.len() implies earlier[i] != Event::Attempt(
            SendOutcome::Fatal,
        ) by {
            assert(earlier[i] == events[i]);
        }
        lemma_unbounded_run_goes_on(state, plan, earlier);
        assert(events.last() == events[events.len() - 1]);
        lemma_unbounded_loop_goes_on(run(state, plan, earlier), plan, events.last());
    }
}

/// The count of successful sends never falls, and it grows only by an
/// attempt that succeeded, by one.
pub proof fn lemma_count_grows_by_success(state: SendState, plan: LoopPlan, event: Event)
    requires
        state.has_headroom(),
    ensures
        state.phase == Phase::Sending && event == Event::Attempt(SendOutcome::Sent) ==> state.after(
            plan,
            event,
        ).sent_count == state.sent_count + 1,
        !(state.phase == Phase::Sending && event == Event::Attempt(SendOutcome::Sent))
            ==> state.after(plan, event).sent_count == state.sent_count,
{
}

/// The loop ends in one of two ways: by a fatal attempt, or at the end of a
/// round of a bounded loop whose count of successful sends has reached the
/// target.
pub proof fn lemma_done_needs_target(state: SendState, plan: LoopPlan, event: Event)
    requires
        state.has_headroom(),
        state.phase != Phase::Done,
        state.after(plan, event).phase == Phase::Done,
        event != Event::Attempt(SendOutcome::Fatal),
    ensures
        plan.count > 0,
        state.phase == Phase::Sending,
        state.index + 1 >= plan.record_count,
        state.after(plan, event).sent_count >= plan.target(),
{
}

/// At the end of a round, a bounded loop that is short of its target goes
/// on to another round, however many sends of the round failed.
pub proof fn lemma_short_round_goes_on(state: SendState, plan: LoopPlan, outcome: SendOutcome)
    requires
        state.has_headroom(),
        state.phase == Phase::Sending,
        state.index + 1 >= plan.record_count,
        outcome != SendOutcome::Fatal,
        state.after(plan, Event::Attempt(outcome)).sent_count < plan.target() || plan.count == 0,
    ensures
        state.after(plan, Event::Attempt(outcome)).phase == Phase::Waiting,
        state.after(plan, Event::Attempt(outcome)).index == 0,
        state.after(plan, Event::Attempt(outcome)).round == state.round + 1,
{
}

/// Whether no attempt among `events` succeeded.
pub open spec fn fruitless(events: Seq<Event>) -> bool {
    forall|i: int| 0 <= i < events.len() ==> events[i] != Event::Attempt(SendOutcome::Sent)
}

/// Whether no attempt among `events` was fatal.
pub open spec fn survivable(events: Seq<Event>) -> bool {
    forall|i: int| 0 <= i < events.len() ==> events[i] != Event::Attempt(SendOutcome::Fatal)
}

/// Events among which no attempt succeeded leave the count of successful
/// sends as it was, over any number of rounds.
pub proof fn lemma_fruitless_run_keeps_count(state: SendState, plan: LoopPlan, events: Seq<Event>)
    requires
        fruitless(events),
    ensures
        run(state, plan, events).sent_count == state.sent_count,
    decreases events.len(),
{
    if events.len() > 0 {
        let earlier = events.drop_last();
        assert forall|i: int| 0 <= i < earlier.len() implies earlier[i] != Event::Attempt(
            SendOutcome::Sent,
        ) by {
            assert(earlier[i] == events[i]);
        }
        lemma_fruitless_run_keeps_count(state, plan, earlier);
        assert(events.last() == events[events.len() - 1]);
    }
}

/// A bounded loop that is short of its target does not end while every
/// attempt fails without being fatal: it keeps going round.
pub proof fn lemma_fruitless_run_goes_on(state: SendState, plan: LoopPlan, events: Seq<Event>)
    requires
        plan.count > 0,
        state.phase != Phase::Done,
        state.sent_count < plan.target(),
        fruitless(events),
        survivable(events),
    ensures
        run(state, plan, events).phase != Phase::Done,
        run(state, plan, events).sent_count == state.sent_count,
    decreases events.len(),
{
    if events.len() > 0 {
        let earlier = events.drop_last();
        assert forall|i: int| 0 <= i < earlier.len() implies earlier[i] != Event::Attempt(
            SendOutcome::Sent,
        ) && earlier[i] != Event::Attempt(SendOutcome::Fatal) by {
            assert(earlier[i] == events[i]);
        }
        lemma_fruitless_run_goes_on(state, plan, earlier);
        assert(events.last() == events[events.len() - 1]);
    }
}

/// Whether `state` is one that a loop passes through while every attempt
/// succeeds: the count of successful sends is the number of records sent so
/// far, a bounded loop has rounds left, and a loop that is done has met its
/// target exactly, in as many rounds as were asked for.
pub open spec fn on_course(state: SendState, plan: LoopPlan) -> bool {
    match state.phase {
        Phase::Done => state.sent_count == plan.target() && state.round == plan.count,
        _ => {
            &&& state.index < plan.record_count
            &&& state.sent_count == state.round * plan.record_count + state.index
            &&& plan.count > 0 ==> state.round < plan.count
        },
    }
}

/// Whether every attempt among `events` succeeded.
pub open spec fn all_sent(events: Seq<Event>) -> bool {
    forall|i: int|
        0 <= i < events.len() ==> events[i] == Event::Slept || events[i] == Event::Attempt(
            SendOutcome::Sent,
        )
}

/// One step in which the attempt, if there was one, succeeded keeps the
/// loop on course.
pub proof fn lemma_success_keeps_course(state: SendState, plan: LoopPlan, event: Event)
    requires
        on_course(state, plan),
        state.has_headroom(),
        event == Event::Slept || event == Event::Attempt(SendOutcome::Sent),
    ensures
        on_course(state.after(plan, event), plan),
{
    let n = plan.record_count as int;
    let c = plan.count as int;
    let k = state.round as int;
    if state.phase == Phase::Sending && event == Event::Attempt(SendOutcome::Sent) && state.index
        + 1 >= n {
        assert((k + 1) * n == k * n + n) by (nonlinear_arith);
        if c > 0 {
            assert((k + 1) * n <= c * n) by (nonlinear_arith)
                requires
                    k + 1 <= c,
                    n > 0,
            ;
            if (k + 1) * n >= c * n {
                assert(k + 1 == c) by (nonlinear_arith)
                    requires
                        (k + 1) * n >= c * n,
                        k + 1 <= c,
                        n > 0,
                ;
            } else {
                assert(k + 1 < c) by (nonlinear_arith)
                    requires
                        (k + 1) * n < c * n,
                        k + 1 <= c,
                        n > 0,
                ;
            }
        }
    }
}

/// A bounded loop whose target fits the counter, and in which every attempt
/// succeeds, stays on course from the start. So where it is done, it has
/// made exactly `count * record_count` successful sends in exactly `count`
/// rounds.
pub proof fn lemma_successful_run_on_course(plan: LoopPlan, events: Seq<Event>)
    requires
        plan.record_count > 0,
        plan.count > 0,
        plan.target() <= u64::MAX,
        all_sent(events),
    ensures
        on_course(run(SendState::initial(), plan, events), plan),
    decreases events.len(),
{
    if events.len() > 0 {
        let earlier = events.drop_last();
        assert forall|i: int| 0 <= i < earlier.len() implies earlier[i] == Event::Slept
            || earlier[i] == Event::Attempt(SendOutcome::Sent) by {
            assert(earlier[i] == events[i]);
        }
        lemma_successful_run_on_course(plan, earlier);
        let before = run(SendState::initial(), plan, earlier);
        assert(events.last() == events[events.len() - 1]);
        if before.phase != Phase::Done {
            let n = plan.record_count as int;
            let c = plan.count as int;
            let k = before.round as int;
            assert(k * n + n <= c * n) by (nonlinear_arith)
                requires
                    k + 1 <= c,
                    n > 0,
            ;
            assert(c <= c * n) by (nonlinear_arith)
                requires
                    c > 0,
                    n > 0,
            ;
            lemma_success_keeps_course(before, plan, events.last());
        }
    }
}

/// The event that answers the pending action of `state` where every attempt
/// succeeds.
pub open spec fn success_event(state: SendState) -> Event {
    if state.phase == Phase::Waiting {
        Event::Slept
    } else {
        Event::Attempt(SendOutcome::Sent)
    }
}

/// The state after `steps` actions, each answered with success.
pub open spec fn drive(state: SendState, plan: LoopPlan, steps: nat) -> SendState
    decreases steps,
{
    if steps == 0 {
        state
    } else {
        drive(state.after(plan, success_event(state)), plan, (steps - 1) as nat)
    }
}

/// An upper bound on the actions that a bounded loop still takes where
/// every attempt succeeds: two for each send that is short of the target,
/// and one more while a pause is running.
pub open spec fn actions_left(state: SendState, plan: LoopPlan) -> int {
    2 * (plan.target() - state.sent_count) + if state.phase == Phase::Waiting {
        1int
    } else {
        0int
    }
}

/// A bounded loop that is on course and in which every attempt succeeds
/// comes to its end: after some number of actions, no more than
/// `actions_left`, it is done, with exactly `count * record_count`
/// successful sends in exactly `count` rounds.
pub proof fn lemma_successful_loop_ends(state: SendState, plan: LoopPlan) -> (steps: nat)
    requires
        plan.count > 0,
        plan.target() <= u64::MAX,
        on_course(state, plan),
        state.phase != Phase::Done,
    ensures
        1 <= steps <= actions_left(state, plan),
        drive(state, plan, steps).phase == Phase::Done,
        drive(state, plan, steps).sent_count == plan.target(),
        drive(state, plan, steps).round == plan.count,
    decreases actions_left(state, plan),
{
    let n = plan.record_count as int;
    let c = plan.count as int;
    let k = state.round as int;
    assert(k * n + n <= c * n) by (nonlinear_arith)
        requires
            k + 1 <= c,
            n > 0,
    ;
    assert(c <= c * n) by (nonlinear_arith)
        requires
            c > 0,
            n > 0,
    ;
    let next = state.after(plan, success_event(state));
    lemma_success_keeps_course(state, plan, success_event(state));
    if next.phase == Phase::Done {
        assert(drive(next, plan, 0) == next);
        1
    } else {
        let more = lemma_successful_loop_ends(next, plan);
        more + 1
    }
}

/// A bounded loop whose target fits the counter, and in which every attempt
/// succeeds, ends by itself after exactly `count * record_count` successful
/// sends in exactly `count` rounds.
pub proof fn lemma_successful_loop_ends_from_start(plan: LoopPlan) -> (steps: nat)
    requires
        plan.record_count > 0,
        plan.count > 0,
        plan.target() <= u64::MAX,
    ensures
        drive(SendState::initial(), plan, steps).phase == Phase::Done,
        drive(SendState::initial(), plan, steps).sent_count == plan.target(),
        drive(SendState::initial(), plan, steps).round == plan.count,
{
    lemma_successful_loop_ends(SendState::initial(), plan)
}

} // verus!
