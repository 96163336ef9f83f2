//! One poll cycle of the scheduler against the event log, and what holds of
//! every such cycle.

use crate::error::DeliveryError;
use crate::event::{flagged, latest_of, ordered, recorded, slot, stamped, EventStore, WaterEvent};
use crate::event::{lemma_recorded_keeps_events, lemma_stamped_zero};
use crate::scheduler::{advance, due, reported, transition};
use crate::scheduler::{CycleFault, SchedulerAction, SchedulerEvent, SchedulerState};
use vstd::prelude::*;

verus! {

/// What one poll cycle left behind.
pub struct Cycle {
    /// The event log after the cycle.
    pub log: Seq<WaterEvent>,
    /// The state of the scheduler after the cycle.
    pub state: SchedulerState,
    /// Whether a reminder was handed to the mail transport.
    pub attempted: bool,
    /// The timestamp that the delivery marker was written for, if it was.
    pub written: Option<u64>,
    /// How many events the write of the delivery marker reached.
    pub rows: nat,
    /// The action that closed the cycle.
    pub last: SchedulerAction,
}

/// The log after another writer recorded an event at `arrival`, if any did.
pub open spec fn arrived(log: Seq<WaterEvent>, arrival: Option<u64>) -> Seq<WaterEvent> {
    match arrival {
        Some(timestamp) => recorded(log, timestamp),
        None => log,
    }
}

/// One poll cycle, from `Idle` back to `Idle`: the scheduler reads the latest
/// event of `log` at time `now`; another writer may record an event at
/// `arrival` after that read and before any write; the mail transport, where
/// it is asked, answers `delivery`; the store performs every read and write
/// that is asked of it.
pub open spec fn cycle(
    threshold: u64,
    interval: u64,
    log: Seq<WaterEvent>,
    now: u64,
    delivery: Result<(), DeliveryError>,
    arrival: Option<u64>,
) -> Cycle {
    let polled = transition(threshold, interval, SchedulerState::Idle, SchedulerEvent::Tick);
    let read = transition(
        threshold,
        interval,
        polled.0,
        SchedulerEvent::LatestRead { latest: latest_of(log), now },
    );
    let current = arrived(log, arrival);
    match read.1 {
        SchedulerAction::Deliver { .. } => {
            let sent = transition(threshold, interval, read.0, reported(delivery));
            match sent.1 {
                SchedulerAction::MarkNotified { timestamp } => {
                    let closed = transition(threshold, interval, sent.0, SchedulerEvent::Recorded);
                    Cycle {
                        log: flagged(current, timestamp),
                        state: closed.0,
                        attempted: true,
                        written: Some(timestamp),
                        rows: stamped(current, timestamp),
                        last: closed.1,
                    }
                },
                _ => Cycle {
                    log: current,
                    state: sent.0,
                    attempted: true,
                    written: None,
                    rows: 0,
                    last: sent.1,
                },
            }
        },
        _ => Cycle {
            log: current,
            state: read.0,
            attempted: false,
            written: None,
            rows: 0,
            last: read.1,
        },
    }
}

/// What one poll cycle did, as the caller saw it.
#[derive(Clone, Copy, Debug, PartialEq, Eq)]
pub struct CycleReport {
    /// Whether a reminder was handed to the mail transport.
    pub attempted: bool,
    /// The timestamp that the delivery marker was written for, if it was.
    pub written: Option<u64>,
    /// How many events the write of the delivery marker reached.
    pub rows: usize,
    /// What went wrong, if anything did.
    pub fault: Option<CycleFault>,
    /// Seconds to sleep before the next cycle.
    pub sleep: u64,
}

/// Runs one poll cycle against an in-memory log, from `Idle` back to `Idle`.
///
/// The latest event is read at time `now`. Where `arrival` is given, another
/// writer records an event at that time after the read and before any write.
/// `delivery` is the answer of the mail transport, used only if the cycle
/// hands it a reminder. The log ends as `cycle` says, and the report tells
/// what was done.
pub fn run_cycle(
    threshold: u64,
    interval: u64,
    store: &mut EventStore,
    now: u64,
    delivery: Result<(), DeliveryError>,
    arrival: Option<u64>,
) -> (report: CycleReport)
    ensures
        ({
            let run = cycle(threshold, interval, old(store)@, now, delivery, arrival);
            &&& final(store)@ == run.log
            &&& report.attempted == run.attempted
            &&& report.written == run.written
            &&& report.rows == run.rows
            &&& run.state == SchedulerState::Idle
            &&& run.last == SchedulerAction::Sleep { seconds: report.sleep, fault: report.fault }
            &&& report.sleep == interval
        }),
{
    let (polled, _) = advance(threshold, interval, SchedulerState::Idle, SchedulerEvent::Tick);
    let latest = store.latest();
    let (read, asked) = advance(
        threshold,
        interval,
        polled,
        SchedulerEvent::LatestRead { latest, now },
    );
    if let Some(timestamp) = arrival {
        store.insert(timestamp);
    }
    let mut attempted = false;
    let mut written: Option<u64> = None;
    let mut rows: usize = 0;
    let mut last = asked;
    if let SchedulerAction::Deliver { .. } = asked {
        attempted = true;
        let (sent, then) = advance(
            threshold,
            interval,
            read,
            SchedulerEvent::from_delivery(delivery),
        );
        last = then;
        if let SchedulerAction::MarkNotified { timestamp } = then {
            rows = store.mark_notified(timestamp);
            written = Some(timestamp);
            let (_, closing) = advance(threshold, interval, sent, SchedulerEvent::Recorded);
            last = closing;
        }
    }
    match last {
        SchedulerAction::Sleep { seconds, fault } => CycleReport {
            attempted,
            written,
            rows,
            fault,
            sleep: seconds,
        },
        _ => CycleReport { attempted, written, rows, fault: None, sleep: interval },
    }
}

/// The log that holds the single event stamped `timestamp`.
pub open spec fn single(timestamp: u64, notif_sent: bool) -> Seq<WaterEvent> {
    seq![WaterEvent { timestamp, notif_sent }]
}

/// Every cycle ends in `Idle` with the request to sleep for the poll
/// interval, whatever the store holds and whatever the transport answers.
pub proof fn lemma_cycle_returns_to_idle(
    threshold: u64,
    interval: u64,
    log: Seq<WaterEvent>,
    now: u64,
    delivery: Result<(), DeliveryError>,
    arrival: Option<u64>,
)
    ensures
        ({
            let run = cycle(threshold, interval, log, now, delivery, arrival);
            &&& run.state == SchedulerState::Idle
            &&& run.last matches SchedulerAction::Sleep { seconds, .. }
            &&& seconds == interval
        }),
{
}

/// A cycle acts exactly when a reminder is due for the latest event. When
/// none is due (the log is empty, the latest event already has its reminder,
/// or no more than the threshold has passed) the cycle hands nothing to the
/// transport and writes nothing.
pub proof fn lemma_cycle_acts_when_due(
    threshold: u64,
    interval: u64,
    log: Seq<WaterEvent>,
    now: u64,
    delivery: Result<(), DeliveryError>,
    arrival: Option<u64>,
)
    ensures
        cycle(threshold, interval, log, now, delivery, arrival).attempted == due(
            latest_of(log),
            now,
            threshold,
        ),
        !due(latest_of(log), now, threshold) ==> {
            let run = cycle(threshold, interval, log, now, delivery, arrival);
            &&& run.written is None
            &&& run.log == arrived(log, arrival)
            &&& run.last == SchedulerAction::Sleep { seconds: interval, fault: None }
        },
{
}

/// A lone event that is not yet older than the threshold is left alone: the
/// cycle sends nothing and the event keeps its flag unset.
pub proof fn lemma_fresh_event_is_left_alone(
    threshold: u64,
    interval: u64,
    timestamp: u64,
    now: u64,
    delivery: Result<(), DeliveryError>,
)
    requires
        now - timestamp < threshold,
    ensures
        ({
            let run = cycle(threshold, interval, single(timestamp, false), now, delivery, None);
            &&& !run.attempted
            &&& run.written is None
            &&& run.log == single(timestamp, false)
            &&& run.state == SchedulerState::Idle
        }),
{
}

/// A lone event older than the threshold gets its reminder: with a delivery
/// that succeeds the cycle sets the flag of that event, the only row written.
pub proof fn lemma_stale_event_is_notified(
    threshold: u64,
    interval: u64,
    timestamp: u64,
    now: u64,
)
    requires
        now - timestamp > threshold,
    ensures
        ({
            let run = cycle(threshold, interval, single(timestamp, false), now, Ok(()), None);
            &&& run.attempted
            &&& run.written == Some(timestamp)
            &&& run.rows == 1
            &&& run.log == single(timestamp, true)
            &&& run.state == SchedulerState::Idle
        }),
{
    let log = single(timestamp, false);
    assert(log.drop_last() == Seq::<WaterEvent>::empty());
    assert(stamped(log.drop_last(), timestamp) == 0);
    assert(flagged(log, timestamp) == single(timestamp, true));
}

/// In any log, a cycle whose delivery succeeds flags the events that carry
/// the stamp read at the start of the cycle and changes no other event.
pub proof fn lemma_notified_cycle_flags_by_stamp(
    threshold: u64,
    interval: u64,
    log: Seq<WaterEvent>,
    now: u64,
    arrival: Option<u64>,
)
    requires
        due(latest_of(log), now, threshold),
    ensures
        ({
            let run = cycle(threshold, interval, log, now, Ok(()), arrival);
            let key = log.last().timestamp;
            let current = arrived(log, arrival);
            &&& run.written == Some(key)
            &&& run.log == flagged(current, key)
            &&& run.rows == stamped(current, key)
            &&& run.log.len() == current.len()
            &&& forall|i: int|
                0 <= i < current.len() && current[i].timestamp != key ==> run.log[i] == current[i]
            &&& forall|i: int|
                0 <= i < current.len() && current[i].timestamp == key ==> run.log[i].notif_sent
                    && run.log[i].timestamp == key
        }),
{
}

/// The write of the delivery marker always reaches the event that was read:
/// the log only grows, so an event that arrives in between cannot take the
/// stamp away from the one it follows.
pub proof fn lemma_write_reaches_the_event_read(
    threshold: u64,
    interval: u64,
    log: Seq<WaterEvent>,
    now: u64,
    arrival: Option<u64>,
)
    requires
        ordered(log),
        due(latest_of(log), now, threshold),
    ensures
        cycle(threshold, interval, log, now, Ok(()), arrival).rows >= 1,
{
    let key = log.last().timestamp;
    let current = arrived(log, arrival);
    lemma_stamped_zero(current, key);
    match arrival {
        Some(timestamp) => {
            lemma_recorded_keeps_events(log, timestamp);
            let last = log.len() - 1;
            if last < slot(log, timestamp) {
                assert(current[last] == log[last]);
            } else {
                assert(current[last + 1] == log[last]);
            }
        },
        None => {
            assert(current[log.len() - 1].timestamp == key);
        },
    }
}

/// An event that another writer records after the read, with a later stamp
/// than the one read, is out of reach of the write: the write is keyed to the
/// stamp that was read, so it counts exactly the events that carried that
/// stamp before, and the new event stays unflagged and is the latest event
/// for the cycles to come.
pub proof fn lemma_later_arrival_stays_unflagged(
    threshold: u64,
    interval: u64,
    log: Seq<WaterEvent>,
    now: u64,
    later: u64,
)
    requires
        ordered(log),
        due(latest_of(log), now, threshold),
        later > log.last().timestamp,
    ensures
        ({
            let run = cycle(threshold, interval, log, now, Ok(()), Some(later));
            let key = log.last().timestamp;
            let fresh = WaterEvent { timestamp: later, notif_sent: false };
            &&& run.written == Some(key)
            &&& run.rows == stamped(log, key)
            &&& run.rows >= 1
            &&& run.log == flagged(log, key).push(fresh)
            &&& latest_of(run.log) == Some(fresh)
        }),
{
    let key = log.last().timestamp;
    let fresh = WaterEvent { timestamp: later, notif_sent: false };
    assert forall|i: int| 0 <= i < log.len() implies log[i].timestamp <= later by {
        assert(log[i].timestamp <= log[log.len() - 1].timestamp);
    }
    assert(recorded(log, later) == log.push(fresh));
    assert(log.push(fresh).drop_last() == log);
    assert(flagged(log.push(fresh), key) == flagged(log, key).push(fresh));
    lemma_write_reaches_the_event_read(threshold, interval, log, now, Some(later));
}

/// A delivery that fails leaves the log as it was, so the event keeps its
/// flag unset, and every later cycle tries the delivery again for as long as
/// the event stays the latest.
pub proof fn lemma_failed_delivery_is_retried(
    threshold: u64,
    interval: u64,
    log: Seq<WaterEvent>,
    now: u64,
    error: DeliveryError,
    next: u64,
    delivery: Result<(), DeliveryError>,
)
    requires
        due(latest_of(log), now, threshold),
        now <= next,
    ensures
        ({
            let run = cycle(threshold, interval, log, now, Err(error), None);
            &&& run.attempted
            &&& run.written is None
            &&& run.log == log
            &&& !run.log.last().notif_sent
            &&& run.last == SchedulerAction::Sleep {
                seconds: interval,
                fault: Some(CycleFault::Delivery(error)),
            }
            &&& cycle(threshold, interval, run.log, next, delivery, None).attempted
        }),
{
}

} // verus!
