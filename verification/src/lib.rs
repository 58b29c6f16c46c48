//! A process-local decision authority: single-use tickets with expiry and
//! replay protection, server-side risk scoring of content previews, a bounded
//! newest-first event log, and aggregate counters over redemption outcomes.

use vstd::prelude::*;

pub mod stats;
pub mod strutil;
pub mod risk;
pub mod ids;
pub mod jsonval;
pub mod events;
pub mod store;
pub mod state;

verus! {

/// Loopback port the authority listens on.
pub const PORT: u16 = 8788;

/// Lifetime of a ticket in milliseconds: a ticket is usable until
/// `issued_at + TTL_MS`, and unusable strictly after that instant.
pub const TTL_MS: u64 = 60_000;

/// Capacity of the bounded event log.
pub const MAX_EVENTS: usize = 500;

/// The service identity reported by the status endpoint.
pub fn service_name() -> (s: &'static str)
    ensures
        s@ == "kasbah-guard"@,
{
    "kasbah-guard"
}

} // verus!
