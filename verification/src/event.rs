//! Watering events and the log that holds them.

use vstd::prelude::*;

verus! {

/// One watering of the plant.
#[derive(Clone, Copy, Debug, PartialEq, Eq, Structural)]
pub struct WaterEvent {
    /// Seconds since the epoch at which the event was recorded.
    pub timestamp: u64,
    /// Whether a reminder has gone out for the episode that this event opens.
    pub notif_sent: bool,
}

impl WaterEvent {
    /// The event held by a stored row: the reminder counts as sent exactly
    /// when the stored flag is 1.
    pub fn from_row(timestamp: u64, flag: i32) -> (event: WaterEvent)
        ensures
            event == (WaterEvent { timestamp, notif_sent: flag == 1 }),
    {
        WaterEvent { timestamp, notif_sent: flag == 1 }
    }

    /// The flag to store for this event: 1 once the reminder is sent, else 0.
    pub fn flag(&self) -> (flag: i32)
        ensures
            flag == if self.notif_sent { 1i32 } else { 0i32 },
            (flag == 1) == self.notif_sent,
    {
        if self.notif_sent {
            1
        } else {
            0
        }
    }
}

/// Timestamps never decrease along the log.
pub open spec fn ordered(log: Seq<WaterEvent>) -> bool {
    forall|i: int, j: int| 0 <= i <= j < log.len() ==> log[i].timestamp <= log[j].timestamp
}

/// The most recent event of an ordered log.
pub open spec fn latest_of(log: Seq<WaterEvent>) -> Option<WaterEvent> {
    if log.len() == 0 {
        None
    } else {
        Some(log.last())
    }
}

/// Where an event recorded at `now` goes: behind every event that is not
/// later than `now`.
pub open spec fn slot(log: Seq<WaterEvent>, now: u64) -> nat
    decreases log.len(),
{
    if log.len() == 0 || log.last().timestamp <= now {
        log.len()
    } else {
        slot(log.drop_last(), now)
    }
}

/// The log after an event is recorded at `now`.
pub open spec fn recorded(log: Seq<WaterEvent>, now: u64) -> Seq<WaterEvent> {
    log.insert(slot(log, now) as int, WaterEvent { timestamp: now, notif_sent: false })
}

/// The log after the reminder flag is set on every event stamped `timestamp`.
pub open spec fn flagged(log: Seq<WaterEvent>, timestamp: u64) -> Seq<WaterEvent> {
    Seq::new(
        log.len(),
        |i: int|
            if log[i].timestamp == timestamp {
                WaterEvent { timestamp, notif_sent: true }
            } else {
                log[i]
            },
    )
}

/// How many events of the log are stamped `timestamp`.
pub open spec fn stamped(log: Seq<WaterEvent>, timestamp: u64) -> nat
    decreases log.len(),
{
    if log.len() == 0 {
        0
    } else {
        stamped(log.drop_last(), timestamp) + if log.last().timestamp == timestamp {
            1nat
        } else {
            0nat
        }
    }
}

/// The log from the newest event to the oldest.
pub open spec fn newest_first(log: Seq<WaterEvent>) -> Seq<WaterEvent> {
    Seq::new(log.len(), |i: int| log[log.len() - 1 - i])
}

/// An in-memory log of watering events, kept in timestamp order.
pub struct EventStore {
    events: Vec<WaterEvent>,
}

impl View for EventStore {
    type V = Seq<WaterEvent>;

    closed spec fn view(&self) -> Seq<WaterEvent> {
        self.events@
    }
}

impl EventStore {
    #[verifier::type_invariant]
    spec fn inv(self) -> bool {
        ordered(self.events@)
    }

    /// An empty log.
    pub fn new() -> (store: EventStore)
        ensures
            store@ == Seq::<WaterEvent>::empty(),
    {
        EventStore { events: Vec::new() }
    }

    /// Number of events in the log.
    pub fn len(&self) -> (n: usize)
        ensures
            n == self@.len(),
    {
        self.events.len()
    }

    /// The most recent event, if there is one.
    pub fn latest(&self) -> (event: Option<WaterEvent>)
        ensures
            event == latest_of(self@),
            ordered(self@),
    {
        proof {
            use_type_invariant(self);
        }
        let n = self.events.len();
        if n == 0 {
            None
        } else {
            Some(self.events[n - 1])
        }
    }

    /// Records a watering at `now`. The new event carries no reminder flag and
    /// goes behind every event that is not later than `now`; with a clock that
    /// never runs backwards that is the end of the log.
    pub fn insert(&mut self, now: u64)
        ensures
            final(self)@ == recorded(old(self)@, now),
            ordered(final(self)@),
    {
        proof {
            use_type_invariant(&*self);
        }
        let mut events: Vec<WaterEvent> = Vec::new();
        core::mem::swap(&mut self.events, &mut events);
        let mut at: usize = events.len();
        assert(events@.take(at as int) == events@);
        while at > 0 && events[at - 1].timestamp > now
            invariant
                at <= events.len(),
                events@ == old(self)@,
                ordered(events@),
                slot(events@, now) == slot(events@.take(at as int), now),
                forall|j: int| at <= j < events.len() ==> events[j].timestamp > now,
            decreases at,
        {
            assert(events@.take(at as int).drop_last() == events@.take(at - 1));
            at = at - 1;
        }
        assert(slot(events@.take(at as int), now) == at);
        events.insert(at, WaterEvent { timestamp: now, notif_sent: false });
        self.events = events;
    }

    /// Sets the reminder flag on every event stamped exactly `timestamp` and
    /// returns how many events carry that stamp. No other event changes, and
    /// no flag is ever cleared.
    pub fn mark_notified(&mut self, timestamp: u64) -> (rows: usize)
        ensures
            final(self)@ == flagged(old(self)@, timestamp),
            rows == stamped(old(self)@, timestamp),
            ordered(final(self)@),
    {
        proof {
            use_type_invariant(&*self);
        }
        let mut events: Vec<WaterEvent> = Vec::new();
        core::mem::swap(&mut self.events, &mut events);
        let ghost before = events@;
        let mut rows: usize = 0;
        let mut i: usize = 0;
        while i < events.len()
            invariant
                i <= events.len(),
                events.len() == before.len(),
                rows == stamped(before.take(i as int), timestamp),
                rows <= i,
                forall|j: int| 0 <= j < i ==> events[j] == flagged(before, timestamp)[j],
                forall|j: int| i <= j < events.len() ==> events[j] == before[j],
            decreases events.len() - i,
        {
            assert(before.take(i + 1).drop_last() == before.take(i as int));
            if events[i].timestamp == timestamp {
                events[i] = WaterEvent { timestamp, notif_sent: true };
                rows = rows + 1;
            }
            i = i + 1;
        }
        assert(before.take(i as int) == before);
        assert(events@ == flagged(before, timestamp));
        self.events = events;
        rows
    }

    /// The whole log, newest event first.
    pub fn history(&self) -> (events: Vec<WaterEvent>)
        ensures
            events@ == newest_first(self@),
    {
        let n = self.events.len();
        let mut out: Vec<WaterEvent> = Vec::new();
        let mut i: usize = n;
        while i > 0
            invariant
                n == self.events.len(),
                i <= n,
                out.len() == n - i,
                forall|k: int| 0 <= k < out.len() ==> out[k] == self.events[n - 1 - k],
            decreases i,
        {
            i = i - 1;
            out.push(self.events[i]);
        }
        assert(out@ == newest_first(self@));
        out
    }
}

/// Recording an event keeps every earlier event, in order and unchanged, and
/// keeps the log in timestamp order.
pub proof fn lemma_recorded_keeps_events(log: Seq<WaterEvent>, now: u64)
    requires
        ordered(log),
    ensures
        ordered(recorded(log, now)),
        recorded(log, now).len() == log.len() + 1,
        slot(log, now) <= log.len(),
        recorded(log, now)[slot(log, now) as int] == (WaterEvent {
            timestamp: now,
            notif_sent: false,
        }),
        forall|i: int| 0 <= i < slot(log, now) ==> recorded(log, now)[i] == log[i],
        forall|i: int| slot(log, now) <= i < log.len() ==> recorded(log, now)[i + 1] == log[i],
        forall|i: int| 0 <= i < slot(log, now) ==> log[i].timestamp <= now,
        forall|i: int| slot(log, now) <= i < log.len() ==> log[i].timestamp > now,
{
    lemma_slot(log, now);
}

/// The slot of a new event splits an ordered log into the events that are
/// not later than it and those that are.
pub proof fn lemma_slot(log: Seq<WaterEvent>, now: u64)
    requires
        ordered(log),
    ensures
        slot(log, now) <= log.len(),
        forall|i: int| 0 <= i < slot(log, now) ==> log[i].timestamp <= now,
        forall|i: int| slot(log, now) <= i < log.len() ==> log[i].timestamp > now,
    decreases log.len(),
{
    if log.len() == 0 {
    } else if log.last().timestamp <= now {
        assert forall|i: int| 0 <= i < log.len() implies log[i].timestamp <= now by {
            assert(log[i].timestamp <= log[log.len() - 1].timestamp);
        }
    } else {
        let front = log.drop_last();
        assert(ordered(front)) by {
            assert forall|i: int, j: int| 0 <= i <= j < front.len() implies front[i].timestamp
                <= front[j].timestamp by {
                assert(log[i].timestamp <= log[j].timestamp);
            }
        }
        lemma_slot(front, now);
        assert forall|i: int| 0 <= i < slot(log, now) implies log[i].timestamp <= now by {
            assert(front[i] == log[i]);
        }
        assert forall|i: int| slot(log, now) <= i < log.len() implies log[i].timestamp > now by {
            if i < front.len() {
                assert(front[i] == log[i]);
            }
        }
    }
}

/// With a clock that has not run backwards, a new event becomes the latest.
pub proof fn lemma_recorded_appends(log: Seq<WaterEvent>, now: u64)
    requires
        forall|i: int| 0 <= i < log.len() ==> log[i].timestamp <= now,
    ensures
        recorded(log, now) == log.push(WaterEvent { timestamp: now, notif_sent: false }),
        latest_of(recorded(log, now)) == Some(WaterEvent { timestamp: now, notif_sent: false }),
{
}

/// Flagging changes no timestamp, clears no flag, and touches only the
/// events stamped `timestamp`.
pub proof fn lemma_flagged_only_raises(log: Seq<WaterEvent>, timestamp: u64)
    ensures
        flagged(log, timestamp).len() == log.len(),
        forall|i: int|
            0 <= i < log.len() ==> (#[trigger] flagged(log, timestamp)[i]).timestamp
                == log[i].timestamp,
        forall|i: int|
            0 <= i < log.len() && log[i].notif_sent ==> (#[trigger] flagged(
                log,
                timestamp,
            )[i]).notif_sent,
        forall|i: int|
            0 <= i < log.len() && log[i].timestamp != timestamp ==> #[trigger] flagged(
                log,
                timestamp,
            )[i] == log[i],
        forall|i: int|
            0 <= i < log.len() && log[i].timestamp == timestamp ==> (#[trigger] flagged(
                log,
                timestamp,
            )[i]).notif_sent,
        ordered(log) ==> ordered(flagged(log, timestamp)),
{
}

/// No event carries a stamp exactly when flagging that stamp counts no row.
pub proof fn lemma_stamped_zero(log: Seq<WaterEvent>, timestamp: u64)
    ensures
        stamped(log, timestamp) <= log.len(),
        stamped(log, timestamp) == 0 <==> forall|i: int|
            0 <= i < log.len() ==> log[i].timestamp != timestamp,
    decreases log.len(),
{
    if log.len() > 0 {
        lemma_stamped_zero(log.drop_last(), timestamp);
        if stamped(log, timestamp) == 0 {
            assert forall|i: int| 0 <= i < log.len() implies log[i].timestamp != timestamp by {
                if i < log.len() - 1 {
                    assert(log.drop_last()[i] == log[i]);
                }
            }
        } else if log.last().timestamp != timestamp {
            let i = choose|i: int|
                0 <= i < log.drop_last().len() && log.drop_last()[i].timestamp == timestamp;
            assert(log[i].timestamp == timestamp);
        }
    }
}

} // verus!
