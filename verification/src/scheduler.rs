//! The reminder scheduler: one poll cycle after another, one reminder per
//! episode of staleness.
//!
//! The scheduler never touches the store, the clock or the mail transport.
//! It is a state machine: the caller performs the action that a step asks
//! for and hands the outcome back as the next event.

use crate::error::{ConfigurationError, DeliveryError, StoreError};
use crate::event::WaterEvent;
use vstd::prelude::*;

verus! {

/// Seconds without watering after which a reminder is due: seven days.
pub const STALE_THRESHOLD: u64 = 604800;

/// Seconds between two polls.
pub const POLL_INTERVAL: u64 = 60;

/// What the configuration source holds for the delivery destination.
#[derive(Clone, Debug, PartialEq, Eq)]
pub enum Destination {
    /// Nothing is configured.
    Unset,
    /// A value is configured that is not readable text.
    NotUnicode,
    /// The address that reminders go to.
    Address(String),
}

/// The settings of a running scheduler.
#[derive(Clone, Debug, PartialEq, Eq)]
pub struct SchedulerConfig {
    /// Where reminders go.
    pub destination: String,
    /// Seconds after which the latest event counts as stale.
    pub stale_threshold: u64,
    /// Seconds to sleep between two polls.
    pub poll_interval: u64,
}

/// Where the scheduler stands within a poll cycle.
#[derive(Clone, Copy, Debug, PartialEq, Eq, Structural)]
pub enum SchedulerState {
    /// Waiting for the next poll.
    Idle,
    /// Waiting for the latest event to be read.
    Evaluating,
    /// Waiting for the reminder about the event stamped `timestamp` to be
    /// dispatched.
    Notifying { timestamp: u64 },
    /// Waiting for the delivery marker of the event stamped `timestamp` to be
    /// persisted.
    Recording { timestamp: u64 },
}

/// What went wrong in a cycle; the scheduler goes on regardless.
#[derive(Clone, Copy, Debug, PartialEq, Eq)]
pub enum CycleFault {
    /// The store could not be read or written.
    Store(StoreError),
    /// The reminder could not be delivered; the next cycle tries again.
    Delivery(DeliveryError),
}

/// What the caller reports back to the scheduler.
#[derive(Clone, Copy, Debug, PartialEq, Eq)]
pub enum SchedulerEvent {
    /// The poll timer fired.
    Tick,
    /// The store was read at time `now`; `latest` is its most recent event.
    LatestRead { latest: Option<WaterEvent>, now: u64 },
    /// The store could not be read.
    ReadFailed { error: StoreError },
    /// The mail transport took the reminder.
    Delivered,
    /// The mail transport failed or timed out.
    DeliveryFailed { reason: DeliveryError },
    /// The delivery marker was written.
    Recorded,
    /// The delivery marker could not be written.
    RecordFailed { error: StoreError },
}

/// What the scheduler asks the caller to do next.
#[derive(Clone, Copy, Debug, PartialEq, Eq)]
pub enum SchedulerAction {
    /// Read the most recent event and the clock.
    ReadLatest,
    /// Send the reminder that is due for the event stamped `timestamp`.
    Deliver { timestamp: u64 },
    /// Set the delivery marker on the events stamped exactly `timestamp`.
    MarkNotified { timestamp: u64 },
    /// Report `fault`, if any, sleep for `seconds`, then send `Tick`.
    Sleep { seconds: u64, fault: Option<CycleFault> },
}

/// A reminder is due for the latest event when none has gone out for it and
/// more than `threshold` seconds have passed since.
pub open spec fn due(latest: Option<WaterEvent>, now: u64, threshold: u64) -> bool {
    latest matches Some(event) && !event.notif_sent && now - event.timestamp > threshold
}

/// The action that a state is waiting on.
pub open spec fn awaited(state: SchedulerState, interval: u64) -> SchedulerAction {
    match state {
        SchedulerState::Idle => SchedulerAction::Sleep { seconds: interval, fault: None },
        SchedulerState::Evaluating => SchedulerAction::ReadLatest,
        SchedulerState::Notifying { timestamp } => SchedulerAction::Deliver { timestamp },
        SchedulerState::Recording { timestamp } => SchedulerAction::MarkNotified { timestamp },
    }
}

/// The transition relation of the scheduler: the state that follows `state`
/// on `event`, and the action asked of the caller. An event that the state
/// does not wait for changes nothing and has the awaited action asked again.
pub open spec fn transition(
    threshold: u64,
    interval: u64,
    state: SchedulerState,
    event: SchedulerEvent,
) -> (SchedulerState, SchedulerAction) {
    match (state, event) {
        (SchedulerState::Idle, SchedulerEvent::Tick) => (
            SchedulerState::Evaluating,
            SchedulerAction::ReadLatest,
        ),
        (SchedulerState::Evaluating, SchedulerEvent::LatestRead { latest, now }) => {
            if due(latest, now, threshold) {
                (
                    SchedulerState::Notifying { timestamp: latest->0.timestamp },
                    SchedulerAction::Deliver { timestamp: latest->0.timestamp },
                )
            } else {
                (SchedulerState::Idle, SchedulerAction::Sleep { seconds: interval, fault: None })
            }
        },
        (SchedulerState::Evaluating, SchedulerEvent::ReadFailed { error }) => (
            SchedulerState::Idle,
            SchedulerAction::Sleep { seconds: interval, fault: Some(CycleFault::Store(error)) },
        ),
        (SchedulerState::Notifying { timestamp }, SchedulerEvent::Delivered) => (
            SchedulerState::Recording { timestamp },
            SchedulerAction::MarkNotified { timestamp },
        ),
        (SchedulerState::Notifying { .. }, SchedulerEvent::DeliveryFailed { reason }) => (
            SchedulerState::Idle,
            SchedulerAction::Sleep { seconds: interval, fault: Some(CycleFault::Delivery(reason)) },
        ),
        (SchedulerState::Recording { .. }, SchedulerEvent::Recorded) => (
            SchedulerState::Idle,
            SchedulerAction::Sleep { seconds: interval, fault: None },
        ),
        (SchedulerState::Recording { .. }, SchedulerEvent::RecordFailed { error }) => (
            SchedulerState::Idle,
            SchedulerAction::Sleep { seconds: interval, fault: Some(CycleFault::Store(error)) },
        ),
        _ => (state, awaited(state, interval)),
    }
}

/// The event that reports a read of the store made at `now`.
pub open spec fn read_reported(
    read: Result<Option<WaterEvent>, StoreError>,
    now: u64,
) -> SchedulerEvent {
    match read {
        Ok(latest) => SchedulerEvent::LatestRead { latest, now },
        Err(error) => SchedulerEvent::ReadFailed { error },
    }
}

/// The event that reports what the mail transport did.
pub open spec fn reported(delivery: Result<(), DeliveryError>) -> SchedulerEvent {
    match delivery {
        Ok(_) => SchedulerEvent::Delivered,
        Err(reason) => SchedulerEvent::DeliveryFailed { reason },
    }
}

/// The event that reports a write of the delivery marker.
pub open spec fn write_reported(write: Result<usize, StoreError>) -> SchedulerEvent {
    match write {
        Ok(_) => SchedulerEvent::Recorded,
        Err(error) => SchedulerEvent::RecordFailed { error },
    }
}

impl SchedulerEvent {
    /// Reports a read of the store made at `now`.
    pub fn from_read(read: Result<Option<WaterEvent>, StoreError>, now: u64) -> (event:
        SchedulerEvent)
        ensures
            event == read_reported(read, now),
    {
        match read {
            Ok(latest) => SchedulerEvent::LatestRead { latest, now },
            Err(error) => SchedulerEvent::ReadFailed { error },
        }
    }

    /// Reports what the mail transport did with the reminder.
    pub fn from_delivery(delivery: Result<(), DeliveryError>) -> (event: SchedulerEvent)
        ensures
            event == reported(delivery),
    {
        match delivery {
            Ok(_) => SchedulerEvent::Delivered,
            Err(reason) => SchedulerEvent::DeliveryFailed { reason },
        }
    }

    /// Reports a write of the delivery marker. The number of rows that the
    /// write reached makes no difference: a write that reached none is a
    /// write all the same.
    pub fn from_write(write: Result<usize, StoreError>) -> (event: SchedulerEvent)
        ensures
            event == write_reported(write),
    {
        match write {
            Ok(_) => SchedulerEvent::Recorded,
            Err(error) => SchedulerEvent::RecordFailed { error },
        }
    }
}

/// One state may follow another: a poll leads from `Idle` to `Evaluating`;
/// from there the cycle is over or goes on to `Notifying`; a delivery leads to
/// `Recording` and a failed one back to `Idle`; the write, done or failed,
/// ends the cycle.
pub open spec fn follows(from: SchedulerState, to: SchedulerState) -> bool {
    match (from, to) {
        (SchedulerState::Idle, SchedulerState::Evaluating) => true,
        (SchedulerState::Evaluating, SchedulerState::Idle) => true,
        (SchedulerState::Evaluating, SchedulerState::Notifying { .. }) => true,
        (
            SchedulerState::Notifying { timestamp: read },
            SchedulerState::Recording { timestamp: written },
        ) => read == written,
        (SchedulerState::Notifying { .. }, SchedulerState::Idle) => true,
        (SchedulerState::Recording { .. }, SchedulerState::Idle) => true,
        _ => false,
    }
}

/// Every step stays where it is or moves along the cycle, and asks for what
/// the state that it reaches waits on, or for the sleep that ends the cycle.
/// A reminder is asked for only when one is due, and the marker only for the
/// stamp that the reminder was for.
pub proof fn lemma_steps_follow_the_cycle(
    threshold: u64,
    interval: u64,
    state: SchedulerState,
    event: SchedulerEvent,
)
    ensures
        ({
            let (next, action) = transition(threshold, interval, state, event);
            &&& next == state || follows(state, next)
            &&& next is Idle ==> (action matches SchedulerAction::Sleep { seconds, .. } && seconds
                == interval)
            &&& !(next is Idle) ==> action == awaited(next, interval)
            &&& next != state && action is Deliver ==> (event matches SchedulerEvent::LatestRead {
                latest,
                now,
            } && due(latest, now, threshold) && action == (SchedulerAction::Deliver {
                timestamp: latest->0.timestamp,
            }))
            &&& next != state && action is MarkNotified ==> state == (SchedulerState::Notifying {
                timestamp: action->MarkNotified_timestamp,
            })
        }),
{
}

/// Decides whether a reminder is due for the latest event read at `now`.
pub fn is_due(latest: Option<WaterEvent>, now: u64, threshold: u64) -> (yes: bool)
    ensures
        yes == due(latest, now, threshold),
{
    match latest {
        Some(event) => !event.notif_sent && now > event.timestamp && now - event.timestamp
            > threshold,
        None => false,
    }
}

/// One step of the scheduler on plain values: the state that follows `state`
/// on `event` and the action asked of the caller.
pub fn advance(
    threshold: u64,
    interval: u64,
    state: SchedulerState,
    event: SchedulerEvent,
) -> (next: (SchedulerState, SchedulerAction))
    ensures
        next == transition(threshold, interval, state, event),
{
    let idle = SchedulerAction::Sleep { seconds: interval, fault: None };
    match (state, event) {
        (SchedulerState::Idle, SchedulerEvent::Tick) => (
            SchedulerState::Evaluating,
            SchedulerAction::ReadLatest,
        ),
        (SchedulerState::Evaluating, SchedulerEvent::LatestRead { latest, now }) => {
            if is_due(latest, now, threshold) {
                let timestamp = latest.unwrap().timestamp;
                (SchedulerState::Notifying { timestamp }, SchedulerAction::Deliver { timestamp })
            } else {
                (SchedulerState::Idle, idle)
            }
        },
        (SchedulerState::Evaluating, SchedulerEvent::ReadFailed { error }) => (
            SchedulerState::Idle,
            SchedulerAction::Sleep { seconds: interval, fault: Some(CycleFault::Store(error)) },
        ),
        (SchedulerState::Notifying { timestamp }, SchedulerEvent::Delivered) => (
            SchedulerState::Recording { timestamp },
            SchedulerAction::MarkNotified { timestamp },
        ),
        (SchedulerState::Notifying { .. }, SchedulerEvent::DeliveryFailed { reason }) => (
            SchedulerState::Idle,
            SchedulerAction::Sleep { seconds: interval, fault: Some(CycleFault::Delivery(reason)) },
        ),
        (SchedulerState::Recording { .. }, SchedulerEvent::Recorded) => (
            SchedulerState::Idle,
            idle,
        ),
        (SchedulerState::Recording { .. }, SchedulerEvent::RecordFailed { error }) => (
            SchedulerState::Idle,
            SchedulerAction::Sleep { seconds: interval, fault: Some(CycleFault::Store(error)) },
        ),
        (SchedulerState::Idle, _) => (state, idle),
        (SchedulerState::Evaluating, _) => (state, SchedulerAction::ReadLatest),
        (SchedulerState::Notifying { timestamp }, _) => (
            state,
            SchedulerAction::Deliver { timestamp },
        ),
        (SchedulerState::Recording { timestamp }, _) => (
            state,
            SchedulerAction::MarkNotified { timestamp },
        ),
    }
}

impl SchedulerConfig {
    /// The settings for reminders to `destination`, with the threshold of
    /// seven days and a poll every minute. Without a usable destination there
    /// is nothing to run.
    pub fn new(destination: Destination) -> (config: Result<SchedulerConfig, ConfigurationError>)
        ensures
            match destination {
                Destination::Unset => config == Err::<SchedulerConfig, _>(
                    ConfigurationError::MissingDestination,
                ),
                Destination::NotUnicode => config == Err::<SchedulerConfig, _>(
                    ConfigurationError::InvalidDestination,
                ),
                Destination::Address(address) => config == Ok::<_, ConfigurationError>(
                    SchedulerConfig {
                        destination: address,
                        stale_threshold: STALE_THRESHOLD,
                        poll_interval: POLL_INTERVAL,
                    },
                ),
            },
    {
        match destination {
            Destination::Unset => Err(ConfigurationError::MissingDestination),
            Destination::NotUnicode => Err(ConfigurationError::InvalidDestination),
            Destination::Address(address) => Ok(
                SchedulerConfig {
                    destination: address,
                    stale_threshold: STALE_THRESHOLD,
                    poll_interval: POLL_INTERVAL,
                },
            ),
        }
    }
}

/// The scheduler: its settings and where it stands in the cycle.
#[derive(Clone, Debug, PartialEq, Eq)]
pub struct Scheduler {
    /// The settings that the scheduler was started with.
    pub config: SchedulerConfig,
    /// The state that the next event is judged in.
    pub state: SchedulerState,
}

impl Scheduler {
    /// A scheduler that waits for its first poll.
    pub fn new(config: SchedulerConfig) -> (scheduler: Scheduler)
        ensures
            scheduler.config == config,
            scheduler.state == SchedulerState::Idle,
    {
        Scheduler { config, state: SchedulerState::Idle }
    }

    /// Takes one event, moves to the state that follows and returns the
    /// action that the caller is to perform. The settings never change.
    pub fn step(&mut self, event: SchedulerEvent) -> (action: SchedulerAction)
        ensures
            final(self).config == old(self).config,
            (final(self).state, action) == transition(
                old(self).config.stale_threshold,
                old(self).config.poll_interval,
                old(self).state,
                event,
            ),
    {
        let (state, action) = advance(
            self.config.stale_threshold,
            self.config.poll_interval,
            self.state,
            event,
        );
        self.state = state;
        action
    }
}

} // verus!
