//! In-memory broadcast and state-reconciliation engine for floating image
//! overlays.
//!
//! One writer per channel streams deltas (`New`, `Update`, `Delete`) that are
//! fanned out verbatim to every subscribed reader, while a reconciled
//! snapshot of the latest state is cached per channel so that late-joining
//! readers start from the current arrangement instead of only future deltas.

pub mod controller;
pub mod env;
pub mod irc;
pub mod json;
pub mod model;
pub mod records;
pub mod reconcile;
pub mod text;
pub mod topic;
pub mod twitch;
