//! The snapshot data model: one event's observable fields at one instant.

use vstd::prelude::*;

verus! {

/// Lifecycle status of a scheduled event, as the platform reports it.
#[derive(Clone, Copy, PartialEq, Eq, Structural, Debug)]
pub enum EventStatus {
    Scheduled,
    Active,
    Completed,
    Canceled,
}

/// A point-in-time copy of the fields of a scheduled event that the core
/// reads: its stable identifier, its lifecycle status, and the optional
/// voice/meeting channel it is linked to (absent for externally located
/// events). Other descriptive fields of the platform entity are not
/// interpreted here and are left with the caller.
#[derive(Clone, Copy, PartialEq, Eq, Structural, Debug)]
pub struct EventSnapshot {
    pub id: u64,
    pub status: EventStatus,
    pub channel_id: Option<u64>,
}

} // verus!
