//! Core of a notification relay that watches a community platform's
//! scheduled-event lifecycle. It caches the last-seen snapshot of every
//! event, classifies each incoming update against that cache (the platform
//! only pushes the new state, never the prior one), and, when an event moves
//! from scheduled to active, computes which interested users are absent from
//! the event's linked channel. All network traffic stays outside this crate:
//! callers fetch membership and interest lists and hand the plain values in.

pub mod detector;
pub mod event;
pub mod resolver;
pub mod store;
