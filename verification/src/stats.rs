//! Aggregate counters over redemption outcomes, monotonically non-decreasing
//! for the life of the process.

use vstd::prelude::*;

verus! {

/// The five running counters. `total` counts every redemption attempt,
/// `allowed` and `denied` split those attempts by outcome, `replay_blocked`
/// counts the attempts denied because the ticket was already consumed (a
/// subset of `denied`), and `secrets_caught` counts issuance requests whose
/// caller-supplied scan flagged at least one candidate secret.
#[derive(Clone, Copy, PartialEq, Eq, Structural, Debug)]
pub struct Stats {
    pub total: u64,
    pub allowed: u64,
    pub denied: u64,
    pub replay_blocked: u64,
    pub secrets_caught: u64,
}

impl Stats {
    /// Every attempt is either allowed or denied, and replay blocks are a
    /// subset of denials.
    pub open spec fn wf(self) -> bool {
        &&& self.total == self.allowed + self.denied
        &&& self.replay_blocked <= self.denied
    }

    pub fn new() -> (r: Stats)
        ensures
            r == (Stats { total: 0, allowed: 0, denied: 0, replay_blocked: 0, secrets_caught: 0 }),
            r.wf(),
    {
        Stats { total: 0, allowed: 0, denied: 0, replay_blocked: 0, secrets_caught: 0 }
    }

    /// One redemption attempt ended in ALLOW.
    pub fn record_allowed(&mut self)
        requires
            old(self).wf(),
            old(self).total < u64::MAX,
        ensures
            *final(self) == (Stats { total: (old(self).total + 1) as u64, allowed: (old(self).allowed + 1) as u64, ..*old(self) }),
            final(self).wf(),
    {
        self.total = self.total + 1;
        self.allowed = self.allowed + 1;
    }

    /// One redemption attempt ended in DENY; `replay` says whether the denial
    /// was a replay block.
    pub fn record_denied(&mut self, replay: bool)
        requires
            old(self).wf(),
            old(self).total < u64::MAX,
        ensures
            *final(self) == (Stats {
                total: (old(self).total + 1) as u64,
                denied: (old(self).denied + 1) as u64,
                replay_blocked: if replay { (old(self).replay_blocked + 1) as u64 } else { old(self).replay_blocked },
                ..*old(self)
            }),
            final(self).wf(),
    {
        self.total = self.total + 1;
        self.denied = self.denied + 1;
        if replay {
            self.replay_blocked = self.replay_blocked + 1;
        }
    }

    /// One issuance request arrived whose caller-side scan flagged secrets.
    pub fn record_secrets_caught(&mut self)
        requires
            old(self).secrets_caught < u64::MAX,
        ensures
            *final(self) == (Stats { secrets_caught: (old(self).secrets_caught + 1) as u64, ..*old(self) }),
            old(self).wf() ==> final(self).wf(),
    {
        self.secrets_caught = self.secrets_caught + 1;
    }
}

} // verus!
