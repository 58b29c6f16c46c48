//! The decision authority: composes the risk scorer, ticket store, event
//! log and counters to implement the issue/redeem protocol. Exactly one
//! instance exists per running authority; the caller wraps it in a lock and
//! holds the lock for the duration of each operation.

use vstd::prelude::*;
use vstd::string::*;
use crate::events::{pushed_front, Event, EventData, EventLog};
use crate::risk::{policy_preflight, reason_spec, risk_spec, verdict_seq};
use crate::stats::Stats;
use crate::store::{
    redeem_map_spec, redeem_outcome_spec, RedeemOutcome, TicketStore, TicketView,
};
use crate::strutil::{lower_of, upper_of, uppercase};
use crate::{MAX_EVENTS, PORT, TTL_MS};

verus! {

/// When a ticket issued at `now` expires: the TTL added with saturation.
pub open spec fn expiry_at(now: u64) -> u64 {
    if now + TTL_MS > u64::MAX {
        u64::MAX
    } else {
        (now + TTL_MS) as u64
    }
}

/// The redemption choice string after normalization: uppercased, with a
/// missing choice defaulting to `DENY`.
pub open spec fn norm_choice(choice: Option<&str>) -> Seq<char> {
    match choice {
        Some(c) => upper_of(c@),
        None => "DENY"@,
    }
}

/// What `decide` hands back to the caller, beside the ticket id the caller
/// supplied.
pub struct DecideOutcome {
    pub exp_ms: u64,
    pub risk: u16,
    pub preflight: String,
    pub reason: String,
}

/// The aggregate state: ticket map, event log and counters.
pub struct Authority {
    store: TicketStore,
    log: EventLog,
    stats: Stats,
}

impl Authority {
    /// The outstanding and used tickets, by id.
    pub closed spec fn tickets(&self) -> Map<Seq<char>, TicketView> {
        self.store.tickets()
    }

    /// The audit log, newest first.
    pub closed spec fn events(&self) -> Seq<Event> {
        self.log@
    }

    /// The five counters.
    pub closed spec fn counters(&self) -> Stats {
        self.stats
    }

    /// Ticket ids are unique, the counters balance, and the log is bounded.
    pub closed spec fn wf(&self) -> bool {
        &&& self.store.wf()
        &&& self.stats.wf()
        &&& self.log@.len() <= MAX_EVENTS
    }

    pub fn new() -> (r: Authority)
        ensures
            r.wf(),
            r.tickets() == Map::<Seq<char>, TicketView>::empty(),
            r.events() == Seq::<Event>::empty(),
            r.counters() == (Stats {
                total: 0,
                allowed: 0,
                denied: 0,
                replay_blocked: 0,
                secrets_caught: 0,
            }),
    {
        Authority { store: TicketStore::new(), log: EventLog::new(), stats: Stats::new() }
    }

    /// Seed the startup record.
    pub fn record_startup(&mut self, now: u64)
        requires
            old(self).wf(),
        ensures
            final(self).wf(),
            final(self).tickets() == old(self).tickets(),
            final(self).counters() == old(self).counters(),
            pushed_front(old(self).events(), final(self).events()),
            final(self).events()[0].ts_ms == now,
            final(self).events()[0].data matches EventData::Startup { message, port }
                && message@ == "Kasbah Guard started"@ && port == PORT,
    {
        let message = String::from_str("Kasbah Guard started");
        self.log.record(Event { ts_ms: now, data: EventData::Startup { message, port: PORT } });
    }

    /// Issue a ticket: score the preview server-side, store the ticket under
    /// the caller-supplied fresh id with the TTL applied to `now`, count a
    /// caller-flagged secret, and log a `DECIDE` record.
    pub fn decide(
        &mut self,
        preview: &str,
        client_secrets: u64,
        meta: serde_json::Value,
        now: u64,
        id: String,
    ) -> (r: DecideOutcome)
        requires
            old(self).wf(),
            old(self).counters().secrets_caught < u64::MAX,
        ensures
            final(self).wf(),
            r.risk as int == risk_spec(lower_of(preview@), preview@.len() as int),
            10 <= r.risk <= 100,
            r.preflight@ == verdict_seq(r.risk as int),
            r.reason@ == reason_spec(lower_of(preview@), preview@.len() as int),
            r.exp_ms == expiry_at(now),
            final(self).tickets() == old(self).tickets().insert(
                id@,
                TicketView { exp_ms: expiry_at(now), consumed: false, risk: r.risk, meta },
            ),
            final(self).counters() == (Stats {
                secrets_caught: if client_secrets > 0 {
                    (old(self).counters().secrets_caught + 1) as u64
                } else {
                    old(self).counters().secrets_caught
                },
                ..old(self).counters()
            }),
            pushed_front(old(self).events(), final(self).events()),
            final(self).events()[0].ts_ms == now,
            final(self).events()[0].data matches EventData::Decide {
                ticket,
                risk,
                preflight,
                reason,
                secrets,
            } && ticket@ == id@ && risk == r.risk && preflight@ == verdict_seq(r.risk as int)
                && reason@ == reason_spec(lower_of(preview@), preview@.len() as int) && secrets
                == client_secrets,
    {
        let (risk, preflight, reason) = policy_preflight(preview);
        let exp_ms = now.saturating_add(TTL_MS);
        if client_secrets > 0 {
            self.stats.record_secrets_caught();
        }
        let ticket_echo = id.clone();
        let preflight_echo = preflight.clone();
        let reason_echo = reason.clone();
        self.store.insert(id, exp_ms, risk, meta);
        self.log.record(
            Event {
                ts_ms: now,
                data: EventData::Decide {
                    ticket: ticket_echo,
                    risk,
                    preflight: preflight_echo,
                    reason: reason_echo,
                    secrets: client_secrets,
                },
            },
        );
        DecideOutcome { exp_ms, risk, preflight, reason }
    }

    /// Redeem a ticket: normalize the choice (case-insensitive `ALLOW`,
    /// anything else — or nothing — denies), consult the store, update the
    /// counters, and log a `CONSUME` record. Every call produces a definite
    /// outcome; ambiguous input resolves to a denial, never to an allowance.
    pub fn consume(&mut self, ticket: &str, choice: Option<&str>, now: u64) -> (r: RedeemOutcome)
        requires
            old(self).wf(),
            old(self).counters().total < u64::MAX,
        ensures
            final(self).wf(),
            r == redeem_outcome_spec(
                old(self).tickets(),
                ticket@,
                norm_choice(choice) == "ALLOW"@,
                now,
            ),
            final(self).tickets() == redeem_map_spec(old(self).tickets(), ticket@, now),
            final(self).counters() == (Stats {
                total: (old(self).counters().total + 1) as u64,
                allowed: if r == RedeemOutcome::Allowed {
                    (old(self).counters().allowed + 1) as u64
                } else {
                    old(self).counters().allowed
                },
                denied: if r != RedeemOutcome::Allowed {
                    (old(self).counters().denied + 1) as u64
                } else {
                    old(self).counters().denied
                },
                replay_blocked: if r == RedeemOutcome::DeniedReplay {
                    (old(self).counters().replay_blocked + 1) as u64
                } else {
                    old(self).counters().replay_blocked
                },
                secrets_caught: old(self).counters().secrets_caught,
            }),
            pushed_front(old(self).events(), final(self).events()),
            final(self).events()[0].ts_ms == now,
            final(self).events()[0].data matches EventData::Consume {
                ticket: t,
                decision,
                reason,
                choice: ch,
            } && t@ == ticket@ && decision@ == r.decision_seq() && reason@ == r.reason_seq()
                && ch@ == norm_choice(choice),
    {
        let norm: String = match choice {
            Some(c) => uppercase(c),
            None => String::from_str("DENY"),
        };
        let allow_word = String::from_str("ALLOW");
        let allow = norm == allow_word;
        let r = self.store.redeem(ticket, allow, now);
        match r {
            RedeemOutcome::Allowed => self.stats.record_allowed(),
            RedeemOutcome::DeniedReplay => self.stats.record_denied(true),
            _ => self.stats.record_denied(false),
        }
        self.log.record(
            Event {
                ts_ms: now,
                data: EventData::Consume {
                    ticket: String::from_str(ticket),
                    decision: String::from_str(r.decision_str()),
                    reason: String::from_str(r.reason_str()),
                    choice: norm,
                },
            },
        );
        r
    }

    /// A copy of the counters.
    pub fn counters_snapshot(&self) -> (r: Stats)
        ensures
            r == self.counters(),
    {
        self.stats
    }

    /// How many audit records are retained.
    pub fn events_len(&self) -> (n: usize)
        ensures
            n == self.events().len(),
    {
        self.log.len()
    }

    /// The `i`-th newest audit record.
    pub fn event_at(&self, i: usize) -> (e: &Event)
        requires
            i < self.events().len(),
        ensures
            *e == self.events()[i as int],
    {
        self.log.get(i)
    }
}

/// The counters balance: every attempt is either allowed or denied, and
/// replay blocks are a subset of denials. Holds in every reachable state.
pub proof fn lemma_stats_balance(a: &Authority)
    requires
        a.wf(),
    ensures
        a.counters().total == a.counters().allowed + a.counters().denied,
        a.counters().replay_blocked <= a.counters().denied,
{
}

/// The audit log never exceeds its capacity. Holds in every reachable state;
/// together with `pushed_front` in the ensures of each mutating operation it
/// says the log presents its records newest first.
pub proof fn lemma_log_bounded(a: &Authority)
    requires
        a.wf(),
    ensures
        a.events().len() <= MAX_EVENTS,
{
}

} // verus!
