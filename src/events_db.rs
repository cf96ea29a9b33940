use vstd::prelude::*;

verus! {

/// A destination's membership in a channel.
pub struct Subscription {
    pub chat_id: i64,
    pub channel: String,
}

/// A scheduled message. `notify_at` is a UTC instant in milliseconds since the
/// Unix epoch; `interval`, where present, is the text of the repeat period.
pub struct Event {
    pub id: i32,
    pub channel: String,
    pub message: String,
    pub notify_at: i64,
    pub interval: Option<String>,
}

/// The expiring marker of an event: the store removes it at `notify_at`.
#[derive(Clone, Copy, Debug, PartialEq, Eq, Structural)]
pub struct EventTrigger {
    pub id: i32,
    pub notify_at: i64,
}

/// A destination's preferred time zone, by its zone database name.
pub struct ChatTimezone {
    pub chat_id: i64,
    pub timezone: String,
}

impl Event {
    /// A field-by-field copy.
    pub fn duplicate(&self) -> (r: Event)
        ensures
            r == *self,
    {
        let interval = match &self.interval {
            Some(s) => Some(s.clone()),
            None => None,
        };
        Event {
            id: self.id,
            channel: self.channel.clone(),
            message: self.message.clone(),
            notify_at: self.notify_at,
            interval,
        }
    }

    /// The trigger that is stored beside the event: same id, same due time.
    pub fn trigger(&self) -> (r: EventTrigger)
        ensures
            r == (EventTrigger { id: self.id, notify_at: self.notify_at }),
    {
        EventTrigger { id: self.id, notify_at: self.notify_at }
    }
}

/// What a change on the trigger collection means to the dispatcher.
#[derive(Clone, Copy, Debug, PartialEq, Eq, Structural)]
pub enum EventChange {
    Created(i32),
    Triggered(i32),
    Unknown,
}

/// The kind of operation reported by the change feed of the trigger collection.
#[derive(Clone, Copy, Debug, PartialEq, Eq, Structural)]
pub enum ChangeOp {
    Insert,
    Delete,
    Other,
}

pub open spec fn change_of(op: ChangeOp, id: i32) -> EventChange {
    match op {
        ChangeOp::Insert => EventChange::Created(id),
        ChangeOp::Delete => EventChange::Triggered(id),
        ChangeOp::Other => EventChange::Unknown,
    }
}

/// Classifies one operation of the change feed: an inserted trigger is a new
/// event, a deleted (expired) trigger is the signal that the event is due.
pub fn classify_change(op: ChangeOp, id: i32) -> (r: EventChange)
    ensures
        r == change_of(op, id),
{
    match op {
        ChangeOp::Insert => EventChange::Created(id),
        ChangeOp::Delete => EventChange::Triggered(id),
        ChangeOp::Other => EventChange::Unknown,
    }
}

/// The change feed of the trigger collection, classified operation by operation.
pub open spec fn classify_feed(ops: Seq<(ChangeOp, i32)>) -> Seq<EventChange> {
    ops.map_values(|o: (ChangeOp, i32)| change_of(o.0, o.1))
}

/// How many times `change` occurs in `changes`.
pub open spec fn count_of(changes: Seq<EventChange>, change: EventChange) -> nat
    decreases changes.len(),
{
    if changes.len() == 0 {
        0
    } else {
        count_of(changes.drop_last(), change) + if changes.last() == change {
            1nat
        } else {
            0nat
        }
    }
}

/// Scheduling an event writes its trigger once, and the store later removes it
/// once: the feed of those two operations yields exactly one `Triggered` signal
/// for the event's id.
pub proof fn lemma_schedule_then_expiry_fires_once(event: Event)
    ensures
        ({
            let t = (EventTrigger { id: event.id, notify_at: event.notify_at });
            count_of(
                classify_feed(seq![(ChangeOp::Insert, t.id), (ChangeOp::Delete, t.id)]),
                EventChange::Triggered(event.id),
            ) == 1
        }),
{
    reveal_with_fuel(count_of, 3);
    let ops = seq![(ChangeOp::Insert, event.id), (ChangeOp::Delete, event.id)];
    let feed = classify_feed(ops);
    assert(feed =~= seq![EventChange::Created(event.id), EventChange::Triggered(event.id)]);
    assert(feed.drop_last() =~= seq![EventChange::Created(event.id)]);
    assert(feed.drop_last().drop_last() =~= Seq::<EventChange>::empty());
}

/// The server's code for a write that breaks a unique index.
pub const DUPLICATE_KEY_CODE: i32 = 11000;

/// How a single write to the store ended.
#[derive(Clone, Copy, Debug, PartialEq, Eq, Structural)]
pub enum WriteOutcome {
    Written,
    /// The server refused the write with this code.
    WriteError(i32),
    /// The write did not reach the server or its answer was lost.
    OtherError,
}

/// A store failure that is passed on to the caller.
#[derive(Clone, Copy, Debug, PartialEq, Eq, Structural)]
pub enum StoreError {
    Write(i32),
    Unreachable,
}

pub open spec fn subscribe_result_spec(o: WriteOutcome) -> Result<(), StoreError> {
    match o {
        WriteOutcome::Written => Ok(()),
        WriteOutcome::WriteError(code) => if code == DUPLICATE_KEY_CODE {
            Ok(())
        } else {
            Err(StoreError::Write(code))
        },
        WriteOutcome::OtherError => Err(StoreError::Unreachable),
    }
}

/// The result of inserting a subscription: a pair that is already there is a
/// success, not an error.
pub fn subscribe_result(o: WriteOutcome) -> (r: Result<(), StoreError>)
    ensures
        r == subscribe_result_spec(o),
{
    match o {
        WriteOutcome::Written => Ok(()),
        WriteOutcome::WriteError(code) => {
            if code == DUPLICATE_KEY_CODE {
                Ok(())
            } else {
                Err(StoreError::Write(code))
            }
        },
        WriteOutcome::OtherError => Err(StoreError::Unreachable),
    }
}

pub open spec fn unsubscribe_result_spec(o: WriteOutcome) -> Result<(), StoreError> {
    match o {
        WriteOutcome::Written => Ok(()),
        WriteOutcome::WriteError(code) => Err(StoreError::Write(code)),
        WriteOutcome::OtherError => Err(StoreError::Unreachable),
    }
}

/// The result of deleting a subscription: deleting nothing is a success.
pub fn unsubscribe_result(o: WriteOutcome) -> (r: Result<(), StoreError>)
    ensures
        r == unsubscribe_result_spec(o),
{
    match o {
        WriteOutcome::Written => Ok(()),
        WriteOutcome::WriteError(code) => Err(StoreError::Write(code)),
        WriteOutcome::OtherError => Err(StoreError::Unreachable),
    }
}

/// The subscription registry as a set of (destination, channel) pairs.
pub type Registry = Set<(i64, Seq<char>)>;

pub open spec fn after_subscribe(reg: Registry, chat: i64, channel: Seq<char>) -> Registry {
    reg.insert((chat, channel))
}

pub open spec fn after_unsubscribe(reg: Registry, chat: i64, channel: Seq<char>) -> Registry {
    reg.remove((chat, channel))
}

pub open spec fn subscribers_of(reg: Registry, channel: Seq<char>) -> Set<i64> {
    Set::new(|chat: i64| reg.contains((chat, channel)))
}

/// The insert of a pair that already exists is refused by the unique index;
/// the registry keeps the pair once.
pub open spec fn insert_outcome(reg: Registry, chat: i64, channel: Seq<char>) -> WriteOutcome {
    if reg.contains((chat, channel)) {
        WriteOutcome::WriteError(DUPLICATE_KEY_CODE)
    } else {
        WriteOutcome::Written
    }
}

/// Subscribing twice leaves the channel's subscribers as one subscription
/// does, and the second subscription reports success.
pub proof fn lemma_subscribe_idempotent(reg: Registry, chat: i64, channel: Seq<char>)
    ensures
        subscribers_of(after_subscribe(after_subscribe(reg, chat, channel), chat, channel), channel)
            == subscribers_of(after_subscribe(reg, chat, channel), channel),
        subscribe_result_spec(insert_outcome(after_subscribe(reg, chat, channel), chat, channel))
            == Ok::<(), StoreError>(()),
{
    assert(after_subscribe(after_subscribe(reg, chat, channel), chat, channel)
        =~= after_subscribe(reg, chat, channel));
}

/// Unsubscribing a destination that is not subscribed changes nothing and
/// reports success: the delete matches no pair and is no error.
pub proof fn lemma_unsubscribe_non_member(reg: Registry, chat: i64, channel: Seq<char>)
    requires
        !reg.contains((chat, channel)),
    ensures
        after_unsubscribe(reg, chat, channel) == reg,
        unsubscribe_result_spec(WriteOutcome::Written) == Ok::<(), StoreError>(()),
{
    assert(after_unsubscribe(reg, chat, channel) =~= reg);
}

} // verus!
