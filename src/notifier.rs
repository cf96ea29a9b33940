use vstd::prelude::*;

use crate::events_db::{Event, EventChange};
use crate::interval::{next_due, next_due_spec, parse_interval, parse_interval_spec};

verus! {

/// Where the dispatcher stands in handling one fired trigger.
pub enum DispatchState {
    /// Waiting for the next change of the trigger collection.
    Idle,
    /// The event with this id was asked for.
    Loading { id: i32 },
    /// The subscribers of the event's channel were asked for.
    Resolving { event: Event },
    /// The message is being delivered to `chats[next]`.
    Delivering { event: Event, chats: Vec<i64>, next: usize },
    /// The fired event is being deleted.
    Deleting { event: Event },
    /// The next occurrence of a recurring event is being written.
    Rescheduling { event: Event },
}

/// What the surrounding loop reports back to the dispatcher.
pub enum DispatchInput {
    Change(EventChange),
    Loaded(Option<Event>),
    Subscribers(Vec<i64>),
    Delivered(bool),
    Deleted,
    Added,
    StoreFailed,
}

/// What the surrounding loop is to do next.
pub enum DispatchAction {
    /// Wait for the next change.
    Wait,
    LoadEvent(i32),
    LoadSubscribers(String),
    Deliver(i64, String),
    DeleteEvent(i32),
    /// Write the event and then its trigger.
    AddEvent(Event),
}

impl DispatchState {
    pub open spec fn wf(&self) -> bool {
        match self {
            DispatchState::Delivering { chats, next, .. } => next < chats@.len(),
            _ => true,
        }
    }
}

pub open spec fn next_occurrence_spec(event: Event, interval: Result<i64, crate::interval::IntervalError>) -> Option<Event> {
    match interval {
        Ok(ms) => match next_due_spec(event.notify_at, ms) {
            Some(at) => Some(Event { notify_at: at, ..event }),
            None => None,
        },
        Err(_) => None,
    }
}

/// The next occurrence of a recurring event, given its validated interval: the
/// same id, channel, message and interval, due one interval after the previous
/// scheduled time.
pub fn next_occurrence(event: Event, interval: Result<i64, crate::interval::IntervalError>) -> (r: Option<Event>)
    ensures
        r == next_occurrence_spec(event, interval),
{
    match interval {
        Ok(ms) => match next_due(event.notify_at, ms) {
            Some(at) => Some(Event { notify_at: at, ..event }),
            None => None,
        },
        Err(_) => None,
    }
}

/// The occurrence that follows `event`, if it recurs.
pub open spec fn follow_up(event: Event) -> Option<Event> {
    match event.interval {
        Some(s) => next_occurrence_spec(event, parse_interval_spec(s@)),
        None => None,
    }
}

pub open spec fn step_spec(s: DispatchState, i: DispatchInput) -> (DispatchState, DispatchAction) {
    match s {
        DispatchState::Idle => match i {
            DispatchInput::Change(EventChange::Triggered(id)) => (
                DispatchState::Loading { id },
                DispatchAction::LoadEvent(id),
            ),
            _ => (DispatchState::Idle, DispatchAction::Wait),
        },
        DispatchState::Loading { id } => match i {
            DispatchInput::Loaded(Some(event)) => (
                DispatchState::Resolving { event },
                DispatchAction::LoadSubscribers(event.channel),
            ),
            DispatchInput::Loaded(None) => (DispatchState::Idle, DispatchAction::Wait),
            DispatchInput::StoreFailed => (s, DispatchAction::LoadEvent(id)),
            _ => (s, DispatchAction::Wait),
        },
        DispatchState::Resolving { event } => match i {
            DispatchInput::Subscribers(chats) => if chats@.len() == 0 {
                (DispatchState::Deleting { event }, DispatchAction::DeleteEvent(event.id))
            } else {
                (
                    DispatchState::Delivering { event, chats, next: 0 },
                    DispatchAction::Deliver(chats@[0], event.message),
                )
            },
            DispatchInput::StoreFailed => (s, DispatchAction::LoadSubscribers(event.channel)),
            _ => (s, DispatchAction::Wait),
        },
        DispatchState::Delivering { event, chats, next } => match i {
            DispatchInput::Delivered(_) => if next + 1 < chats@.len() {
                (
                    DispatchState::Delivering { event, chats, next: (next + 1) as usize },
                    DispatchAction::Deliver(chats@[next + 1], event.message),
                )
            } else {
                (DispatchState::Deleting { event }, DispatchAction::DeleteEvent(event.id))
            },
            _ => (s, DispatchAction::Wait),
        },
        DispatchState::Deleting { event } => match i {
            DispatchInput::Deleted => match follow_up(event) {
                Some(n) => (DispatchState::Rescheduling { event: n }, DispatchAction::AddEvent(n)),
                None => (DispatchState::Idle, DispatchAction::Wait),
            },
            DispatchInput::StoreFailed => (s, DispatchAction::DeleteEvent(event.id)),
            _ => (s, DispatchAction::Wait),
        },
        DispatchState::Rescheduling { event } => match i {
            DispatchInput::Added => (DispatchState::Idle, DispatchAction::Wait),
            DispatchInput::StoreFailed => (s, DispatchAction::AddEvent(event)),
            _ => (s, DispatchAction::Wait),
        },
    }
}

/// One decision of the dispatcher: from its state and what the loop reports,
/// the next state and what the loop is to do. A fired trigger loads its event;
/// a missing event ends the round; otherwise the message goes to each
/// subscriber in turn, whatever each delivery's outcome, then the event is
/// deleted and, if it recurs, written again one interval later. A failed store
/// operation is asked for again.
pub fn step(s: DispatchState, i: DispatchInput) -> (r: (DispatchState, DispatchAction))
    requires
        s.wf(),
    ensures
        r == step_spec(s, i),
        r.0.wf(),
{
    match s {
        DispatchState::Idle => match i {
            DispatchInput::Change(EventChange::Triggered(id)) => (
                DispatchState::Loading { id },
                DispatchAction::LoadEvent(id),
            ),
            _ => (DispatchState::Idle, DispatchAction::Wait),
        },
        DispatchState::Loading { id } => match i {
            DispatchInput::Loaded(Some(event)) => {
                let channel = event.channel.clone();
                (DispatchState::Resolving { event }, DispatchAction::LoadSubscribers(channel))
            },
            DispatchInput::Loaded(None) => (DispatchState::Idle, DispatchAction::Wait),
            DispatchInput::StoreFailed => (DispatchState::Loading { id }, DispatchAction::LoadEvent(id)),
            _ => (DispatchState::Loading { id }, DispatchAction::Wait),
        },
        DispatchState::Resolving { event } => match i {
            DispatchInput::Subscribers(chats) => {
                if chats.len() == 0 {
                    let id = event.id;
                    (DispatchState::Deleting { event }, DispatchAction::DeleteEvent(id))
                } else {
                    let first = chats[0];
                    let message = event.message.clone();
                    (
                        DispatchState::Delivering { event, chats, next: 0 },
                        DispatchAction::Deliver(first, message),
                    )
                }
            },
            DispatchInput::StoreFailed => {
                let channel = event.channel.clone();
                (DispatchState::Resolving { event }, DispatchAction::LoadSubscribers(channel))
            },
            _ => (DispatchState::Resolving { event }, DispatchAction::Wait),
        },
        DispatchState::Delivering { event, chats, next } => match i {
            DispatchInput::Delivered(_) => {
                if next < chats.len() - 1 {
                    let chat = chats[next + 1];
                    let message = event.message.clone();
                    (
                        DispatchState::Delivering { event, chats, next: next + 1 },
                        DispatchAction::Deliver(chat, message),
                    )
                } else {
                    let id = event.id;
                    (DispatchState::Deleting { event }, DispatchAction::DeleteEvent(id))
                }
            },
            _ => (DispatchState::Delivering { event, chats, next }, DispatchAction::Wait),
        },
        DispatchState::Deleting { event } => match i {
            DispatchInput::Deleted => {
                let follow = match &event.interval {
                    Some(text) => {
                        let interval = parse_interval(text.as_str());
                        next_occurrence(event, interval)
                    },
                    None => None,
                };
                match follow {
                    Some(n) => {
                        let copy = n.duplicate();
                        (DispatchState::Rescheduling { event: n }, DispatchAction::AddEvent(copy))
                    },
                    None => (DispatchState::Idle, DispatchAction::Wait),
                }
            },
            DispatchInput::StoreFailed => {
                let id = event.id;
                (DispatchState::Deleting { event }, DispatchAction::DeleteEvent(id))
            },
            _ => (DispatchState::Deleting { event }, DispatchAction::Wait),
        },
        DispatchState::Rescheduling { event } => match i {
            DispatchInput::Added => (DispatchState::Idle, DispatchAction::Wait),
            DispatchInput::StoreFailed => {
                let copy = event.duplicate();
                (DispatchState::Rescheduling { event }, DispatchAction::AddEvent(copy))
            },
            _ => (DispatchState::Rescheduling { event }, DispatchAction::Wait),
        },
    }
}

/// The state reached and the actions asked for when the loop reports `inputs`
/// in order.
pub open spec fn run(s: DispatchState, inputs: Seq<DispatchInput>) -> (DispatchState, Seq<DispatchAction>)
    decreases inputs.len(),
{
    if inputs.len() == 0 {
        (s, Seq::empty())
    } else {
        let (s1, a) = step_spec(s, inputs[0]);
        let (s2, rest) = run(s1, inputs.drop_first());
        (s2, seq![a] + rest)
    }
}

pub open spec fn outcomes(bs: Seq<bool>) -> Seq<DispatchInput> {
    bs.map_values(|b: bool| DispatchInput::Delivered(b))
}

pub open spec fn deliveries(chats: Seq<i64>, message: String) -> Seq<DispatchAction> {
    chats.map_values(|c: i64| DispatchAction::Deliver(c, message))
}

proof fn lemma_run_concat(s: DispatchState, a: Seq<DispatchInput>, b: Seq<DispatchInput>)
    ensures
        run(s, a + b) == ({
            let (s1, x) = run(s, a);
            let (s2, y) = run(s1, b);
            (s2, x + y)
        }),
    decreases a.len(),
{
    if a.len() == 0 {
        assert(a + b =~= b);
        assert(Seq::<DispatchAction>::empty() + run(s, b).1 =~= run(s, b).1);
    } else {
        let (s1, x) = step_spec(s, a[0]);
        assert((a + b).drop_first() =~= a.drop_first() + b);
        lemma_run_concat(s1, a.drop_first(), b);
        let (t1, u) = run(s1, a.drop_first());
        let (t2, v) = run(t1, b);
        assert(seq![x] + (u + v) =~= (seq![x] + u) + v);
    }
}

proof fn lemma_delivering(event: Event, chats: Vec<i64>, k: usize, bs: Seq<bool>)
    requires
        k < chats@.len(),
        chats@.len() <= usize::MAX,
        bs.len() == chats@.len() - k,
    ensures
        run(DispatchState::Delivering { event, chats, next: k }, outcomes(bs)) == (
            DispatchState::Deleting { event },
            deliveries(chats@.subrange(k + 1, chats@.len() as int), event.message).push(
                DispatchAction::DeleteEvent(event.id),
            ),
        ),
    decreases chats@.len() - k,
{
    reveal_with_fuel(run, 2);
    let s = DispatchState::Delivering { event, chats, next: k };
    let ins = outcomes(bs);
    assert(ins.drop_first() =~= outcomes(bs.drop_first()));
    if k + 1 < chats@.len() {
        let k1 = (k + 1) as usize;
        lemma_delivering(event, chats, k1, bs.drop_first());
        assert(deliveries(chats@.subrange(k + 1, chats@.len() as int), event.message)
            =~= seq![DispatchAction::Deliver(chats@[k + 1], event.message)]
                + deliveries(chats@.subrange(k1 + 1, chats@.len() as int), event.message));
        assert(run(s, ins).1 =~= deliveries(chats@.subrange(k + 1, chats@.len() as int), event.message).push(
            DispatchAction::DeleteEvent(event.id),
        ));
    } else {
        assert(bs.drop_first().len() == 0);
        assert(deliveries(chats@.subrange(k + 1, chats@.len() as int), event.message) =~= Seq::empty());
        assert(run(s, ins).1 =~= seq![DispatchAction::DeleteEvent(event.id)]);
    }
}

/// Once the subscribers of a loaded event are known, the message is offered to
/// every one of them in turn and the event is then deleted, whatever each
/// delivery's outcome: a failed delivery neither stops the others nor keeps
/// the event.
pub proof fn lemma_deliveries_isolated(event: Event, chats: Vec<i64>, bs: Seq<bool>)
    requires
        chats@.len() <= usize::MAX,
        bs.len() == chats@.len(),
    ensures
        run(DispatchState::Resolving { event }, seq![DispatchInput::Subscribers(chats)] + outcomes(bs)) == (
            DispatchState::Deleting { event },
            deliveries(chats@, event.message).push(DispatchAction::DeleteEvent(event.id)),
        ),
{
    reveal_with_fuel(run, 2);
    let s = DispatchState::Resolving { event };
    let ins = seq![DispatchInput::Subscribers(chats)] + outcomes(bs);
    assert(ins.drop_first() =~= outcomes(bs));
    if chats@.len() == 0 {
        assert(outcomes(bs) =~= Seq::empty());
        assert(deliveries(chats@, event.message) =~= Seq::empty());
        assert(run(s, ins).1 =~= seq![DispatchAction::DeleteEvent(event.id)]);
    } else {
        lemma_delivering(event, chats, 0, bs);
        assert(deliveries(chats@, event.message) =~= seq![DispatchAction::Deliver(chats@[0], event.message)]
            + deliveries(chats@.subrange(1, chats@.len() as int), event.message));
        assert(run(s, ins).1 =~= deliveries(chats@, event.message).push(DispatchAction::DeleteEvent(event.id)));
    }
}

/// A fired trigger whose event is gone ends the round: nothing is delivered,
/// nothing is deleted, and the dispatcher waits for the next change.
pub proof fn lemma_missing_event_is_skipped(id: i32)
    ensures
        run(
            DispatchState::Idle,
            seq![DispatchInput::Change(EventChange::Triggered(id)), DispatchInput::Loaded(None)],
        ) == (DispatchState::Idle, seq![DispatchAction::LoadEvent(id), DispatchAction::Wait]),
{
    reveal_with_fuel(run, 3);
    let ins = seq![DispatchInput::Change(EventChange::Triggered(id)), DispatchInput::Loaded(None)];
    assert(ins.drop_first().drop_first() =~= Seq::<DispatchInput>::empty());
    assert(run(DispatchState::Idle, ins).1 =~= seq![DispatchAction::LoadEvent(id), DispatchAction::Wait]);
}

/// What the loop reports in one full round for a fired event that recurs.
pub open spec fn round_inputs(event: Event, chats: Vec<i64>, bs: Seq<bool>) -> Seq<DispatchInput> {
    seq![
        DispatchInput::Change(EventChange::Triggered(event.id)),
        DispatchInput::Loaded(Some(event)),
        DispatchInput::Subscribers(chats),
    ] + outcomes(bs) + seq![DispatchInput::Deleted, DispatchInput::Added]
}

/// What the dispatcher asks for in that round.
pub open spec fn round_actions(event: Event, chats: Vec<i64>, next: Event) -> Seq<DispatchAction> {
    seq![DispatchAction::LoadEvent(event.id), DispatchAction::LoadSubscribers(event.channel)]
        + deliveries(chats@, event.message) + seq![
        DispatchAction::DeleteEvent(event.id),
        DispatchAction::AddEvent(next),
        DispatchAction::Wait,
    ]
}

proof fn lemma_round(event: Event, chats: Vec<i64>, bs: Seq<bool>, next: Event)
    requires
        chats@.len() <= usize::MAX,
        bs.len() == chats@.len(),
        follow_up(event) == Some(next),
    ensures
        run(DispatchState::Idle, round_inputs(event, chats, bs)) == (
            DispatchState::Idle,
            round_actions(event, chats, next),
        ),
{
    reveal_with_fuel(run, 3);
    let head = seq![DispatchInput::Change(EventChange::Triggered(event.id)), DispatchInput::Loaded(Some(event))];
    let mid = seq![DispatchInput::Subscribers(chats)] + outcomes(bs);
    let tail = seq![DispatchInput::Deleted, DispatchInput::Added];
    assert(round_inputs(event, chats, bs) =~= head + (mid + tail));
    lemma_run_concat(DispatchState::Idle, head, mid + tail);
    assert(head.drop_first().drop_first() =~= Seq::<DispatchInput>::empty());
    let s1 = DispatchState::Resolving { event };
    assert(run(DispatchState::Idle, head) == (
        s1,
        seq![DispatchAction::LoadEvent(event.id), DispatchAction::LoadSubscribers(event.channel)],
    )) by {
        assert(run(DispatchState::Idle, head).1 =~= seq![
            DispatchAction::LoadEvent(event.id),
            DispatchAction::LoadSubscribers(event.channel),
        ]);
    }
    lemma_run_concat(s1, mid, tail);
    lemma_deliveries_isolated(event, chats, bs);
    let s2 = DispatchState::Deleting { event };
    assert(tail.drop_first().drop_first() =~= Seq::<DispatchInput>::empty());
    assert(run(s2, tail) == (DispatchState::Idle, seq![DispatchAction::AddEvent(next), DispatchAction::Wait])) by {
        assert(run(s2, tail).1 =~= seq![DispatchAction::AddEvent(next), DispatchAction::Wait]);
    }
    assert(run(DispatchState::Idle, round_inputs(event, chats, bs)).1 =~= round_actions(event, chats, next));
}

/// The `k`-th occurrence of a recurring event, counting the first as zero.
pub open spec fn occurrence(event: Event, k: nat) -> Option<Event>
    decreases k,
{
    if k == 0 {
        Some(event)
    } else {
        match occurrence(event, (k - 1) as nat) {
            Some(e) => follow_up(e),
            None => None,
        }
    }
}

/// A recurring event with interval `ms`, run for `n` rounds with the same
/// subscribers: each round delivers the message once to each subscriber,
/// deletes the event and writes the next occurrence, and the `k`-th occurrence
/// is due exactly `k * ms` after the first, with no drift.
pub proof fn lemma_recurrence_without_drift(event: Event, ms: i64, chats: Vec<i64>, bs: Seq<bool>, n: nat)
    requires
        event.interval is Some,
        parse_interval_spec(event.interval->0@) == Ok::<i64, crate::interval::IntervalError>(ms),
        event.notify_at + n * ms <= i64::MAX,
        chats@.len() <= usize::MAX,
        bs.len() == chats@.len(),
    ensures
        forall|k: nat| k <= n ==> #[trigger] occurrence(event, k) == Some(
            Event { notify_at: (event.notify_at + k * ms) as i64, ..event },
        ),
        forall|k: nat|
            k < n ==> run(DispatchState::Idle, round_inputs(occurrence(event, k)->0, chats, bs)) == (
                DispatchState::Idle,
                #[trigger] round_actions(occurrence(event, k)->0, chats, occurrence(event, k + 1)->0),
            ),
{
    assert(ms > 0) by {
        crate::interval::lemma_interval_positive(event.interval->0@);
    }
    assert forall|k: nat| k <= n implies #[trigger] occurrence(event, k) == Some(
        Event { notify_at: (event.notify_at + k * ms) as i64, ..event },
    ) by {
        lemma_occurrence(event, ms, k, n);
    }
    assert forall|k: nat|
        k < n implies run(DispatchState::Idle, round_inputs(occurrence(event, k)->0, chats, bs)) == (
            DispatchState::Idle,
            #[trigger] round_actions(occurrence(event, k)->0, chats, occurrence(event, k + 1)->0),
        ) by {
        lemma_occurrence(event, ms, k, n);
        lemma_occurrence(event, ms, k + 1, n);
        lemma_round(occurrence(event, k)->0, chats, bs, occurrence(event, k + 1)->0);
    }
}

proof fn lemma_occurrence(event: Event, ms: i64, k: nat, n: nat)
    requires
        event.interval is Some,
        parse_interval_spec(event.interval->0@) == Ok::<i64, crate::interval::IntervalError>(ms),
        ms > 0,
        event.notify_at + n * ms <= i64::MAX,
        k <= n,
    ensures
        occurrence(event, k) == Some(Event { notify_at: (event.notify_at + k * ms) as i64, ..event }),
    decreases k,
{
    if k > 0 {
        let k1 = (k - 1) as nat;
        lemma_occurrence(event, ms, k1, n);
        assert(k1 * ms + ms == k * ms) by (nonlinear_arith)
            requires k1 + 1 == k;
        assert(k * ms <= n * ms) by (nonlinear_arith)
            requires k <= n, ms > 0;
        assert(0 <= k1 * ms) by (nonlinear_arith)
            requires ms > 0;
        assert(k1 * ms <= n * ms) by (nonlinear_arith)
            requires k1 <= n, ms > 0;
        let prev = Event { notify_at: (event.notify_at + k1 * ms) as i64, ..event };
        assert(prev.interval == event.interval);
        assert(next_due_spec(prev.notify_at, ms) == Some((event.notify_at + k * ms) as i64));
        assert(follow_up(prev) == next_occurrence_spec(prev, Ok::<i64, crate::interval::IntervalError>(ms)));
    } else {
        assert(k * ms == 0) by (nonlinear_arith)
            requires k == 0;
        assert(Event { notify_at: event.notify_at, ..event } == event);
    }
}

} // verus!
