//! The failures that the tracker tells apart.

use vstd::prelude::*;

verus! {

/// The backing store could not be opened, read or written.
#[derive(Clone, Copy, Debug, PartialEq, Eq, Structural)]
pub enum StoreError {
    /// The location cannot be opened for reading and writing.
    Unavailable,
    /// A query against the open store failed.
    ReadFailed,
    /// An insert or update against the open store failed.
    WriteFailed,
}

/// The script of one migration unit failed; start-up stops there.
#[derive(Clone, Copy, Debug, PartialEq, Eq, Structural)]
pub struct MigrationError {
    /// Position of the failing unit in the unit list.
    pub index: usize,
}

/// The mail transport did not take the reminder.
#[derive(Clone, Copy, Debug, PartialEq, Eq, Structural)]
pub enum DeliveryError {
    /// The transport could not be started or fed.
    Unreachable,
    /// The transport ran and reported a failure.
    Rejected,
    /// The transport did not finish in time.
    TimedOut,
}

/// The configuration handed in at start-up cannot be used.
#[derive(Clone, Copy, Debug, PartialEq, Eq, Structural)]
pub enum ConfigurationError {
    /// No delivery destination is configured.
    MissingDestination,
    /// The configured delivery destination is not readable text.
    InvalidDestination,
    /// Two migration units share a name; `index` is the position of the
    /// earliest unit whose name already occurred before it.
    DuplicateMigrationName { index: usize },
    /// The script of the migration unit at `index` is not UTF-8 text.
    UnreadableScript { index: usize },
}

} // verus!
