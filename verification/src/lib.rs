//! Tracker synchronization engine.
//!
//! This library mirrors the live state of cooperative multiplayer game
//! sessions hosted on an upstream web tracker into local records, so a richer
//! dashboard (claims, notes, ping preferences, hints, audit trail) can be
//! layered on top.  Its verified core consists of:
//!
//! * a table parser that turns the upstream HTML tables into typed slot and
//!   hint records ([`parse`]),
//! * a status merge rule combining the auto-derived completion signal with a
//!   possibly manually set value ([`model`]),
//! * a reconciler that computes the minimal set of create/update/delete
//!   operations against the stored state ([`reconcile`]),
//! * the decision logic of the synchronization coordinator: URL validation,
//!   freshness checks and response classification ([`sync`]), and
//! * the rules applied to user-initiated edits ([`edits`]).
//!
//! I/O (HTTP, the store, the in-flight request cache) stays outside the
//! library; callers feed it plain values and apply the plans it returns.

pub mod diff;
pub mod edits;
pub mod model;
pub mod parse;
pub mod reconcile;
pub mod strings;
pub mod sync;
