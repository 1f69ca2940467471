//! Provisioning and retirement of disposable guest OS accounts.
//!
//! The library covers the identity lifecycle: a persisted identity store
//! with uniqueness invariants, an allocator for fresh user/group identity
//! numbers, a provisioning engine that builds and tears down home
//! directories over an explicit filesystem model, the session authority
//! that arbitrates login attempts, and the reaper that cleans up after
//! session-end events.

pub mod allocator;
pub mod config;
pub mod fs;
pub mod gecos;
pub mod group;
pub mod lookup;
pub mod names;
pub mod passwd;
pub mod provision;
pub mod reaper;
pub mod session;
pub mod shadow;
pub mod sources;
pub mod store;
pub mod utmp;
pub mod warn;

use vstd::prelude::*;

verus! {

/// Outcome classes a login-related decision can end in.
#[derive(Clone, Copy, PartialEq, Eq, Structural, Debug)]
pub enum AuthOutcome {
    /// The attempt concerns this subsystem and is allowed to proceed.
    Success,
    /// The attempt concerns this subsystem and is denied.
    Reject,
    /// The attempt does not concern this subsystem; defer to others.
    Ignore,
}

} // verus!
