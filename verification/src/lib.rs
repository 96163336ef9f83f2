//! Watering reminders: the rules behind a small plant-watering tracker.
//!
//! The crate holds the decisions of the tracker and proves them with Verus:
//! the log of watering events, the engine that brings a schema up to date one
//! migration unit at a time, and the scheduler that sends one reminder per
//! episode of staleness. Reading the clock, talking to the database and
//! handing a message to the mail transport are left to the caller, who feeds
//! the outcomes back as plain values.

pub mod error;
pub mod cycle;
pub mod event;
pub mod mail;
pub mod migration;
pub mod scheduler;
pub mod source;
pub mod startup;
