//! The authoritative map of outstanding and used tickets, with TTL and
//! single-use enforcement.

use vstd::prelude::*;
use vstd::string::*;

verus! {

/// One stored ticket. `exp_ms` never changes after creation; `consumed`
/// moves from false to true exactly once, on the first redemption attempt
/// that reaches the choice.
pub struct TicketEntry {
    pub id: String,
    pub exp_ms: u64,
    pub consumed: bool,
    pub risk: u16,
    pub meta: serde_json::Value,
}

/// The mathematical content of one ticket, keyed by its id in the store's
/// map view.
pub struct TicketView {
    pub exp_ms: u64,
    pub consumed: bool,
    pub risk: u16,
    pub meta: serde_json::Value,
}

pub open spec fn tview(e: TicketEntry) -> TicketView {
    TicketView { exp_ms: e.exp_ms, consumed: e.consumed, risk: e.risk, meta: e.meta }
}

/// Some entry carries the id `k`.
pub open spec fn has_id(s: Seq<TicketEntry>, k: Seq<char>) -> bool {
    exists|i: int| 0 <= i < s.len() && (#[trigger] s[i]).id@ == k
}

/// All entries carry distinct ids.
pub open spec fn unique_ids(s: Seq<TicketEntry>) -> bool {
    forall|i: int, j: int|
        0 <= i < j < s.len() ==> (#[trigger] s[i]).id@ != (#[trigger] s[j]).id@
}

/// The entries as a map from id to ticket content.
pub open spec fn map_of(s: Seq<TicketEntry>) -> Map<Seq<char>, TicketView>
    decreases s.len(),
{
    if s.len() == 0 {
        Map::empty()
    } else {
        map_of(s.drop_last()).insert(s.last().id@, tview(s.last()))
    }
}

proof fn lemma_map_domain(s: Seq<TicketEntry>, k: Seq<char>)
    ensures
        map_of(s).contains_key(k) <==> has_id(s, k),
    decreases s.len(),
{
    if s.len() > 0 {
        lemma_map_domain(s.drop_last(), k);
        if map_of(s).contains_key(k) {
            if k == s.last().id@ {
                assert((#[trigger] s[s.len() - 1]).id@ == k);
            } else {
                let i = choose|i: int|
                    0 <= i < s.drop_last().len() && (#[trigger] s.drop_last()[i]).id@ == k;
                assert((#[trigger] s[i]).id@ == k);
            }
        }
        if has_id(s, k) {
            let i = choose|i: int| 0 <= i < s.len() && (#[trigger] s[i]).id@ == k;
            if i < s.len() - 1 {
                assert((#[trigger] s.drop_last()[i]).id@ == k);
            }
        }
    }
}

proof fn lemma_map_index(s: Seq<TicketEntry>, i: int)
    requires
        unique_ids(s),
        0 <= i < s.len(),
    ensures
        map_of(s).contains_key(s[i].id@),
        map_of(s)[s[i].id@] == tview(s[i]),
    decreases s.len(),
{
    if i == s.len() - 1 {
    } else {
        assert(unique_ids(s.drop_last()));
        assert(s.drop_last()[i] == s[i]);
        lemma_map_index(s.drop_last(), i);
        assert(s[i].id@ != s[s.len() - 1].id@);
    }
}

proof fn lemma_map_update(s: Seq<TicketEntry>, i: int, e: TicketEntry)
    requires
        unique_ids(s),
        0 <= i < s.len(),
        e.id@ == s[i].id@,
    ensures
        map_of(s.update(i, e)) == map_of(s).insert(e.id@, tview(e)),
        unique_ids(s.update(i, e)),
    decreases s.len(),
{
    let s2 = s.update(i, e);
    assert forall|p: int, q: int| 0 <= p < q < s2.len() implies (#[trigger] s2[p]).id@
        != (#[trigger] s2[q]).id@ by {
        assert(s[p].id@ != s[q].id@);
    }
    if i == s.len() - 1 {
        assert(s2.drop_last() =~= s.drop_last());
        assert(s2.last() == e);
        assert(map_of(s2) =~= map_of(s).insert(e.id@, tview(e)));
    } else {
        assert(s2.drop_last() =~= s.drop_last().update(i, e));
        assert(s2.last() == s.last());
        assert(unique_ids(s.drop_last()));
        assert(s.drop_last()[i] == s[i]);
        lemma_map_update(s.drop_last(), i, e);
        assert(s[i].id@ != s[s.len() - 1].id@);
        assert(map_of(s2) =~= map_of(s).insert(e.id@, tview(e)));
    }
}

proof fn lemma_map_push(s: Seq<TicketEntry>, e: TicketEntry)
    ensures
        map_of(s.push(e)) == map_of(s).insert(e.id@, tview(e)),
{
    assert(s.push(e).drop_last() =~= s);
    assert(s.push(e).last() == e);
}

/// The outcome of one redemption attempt, in strict priority order: unknown
/// ids, then expiry, then replay, then the caller's choice.
#[derive(Clone, Copy, PartialEq, Eq, Structural, Debug)]
pub enum RedeemOutcome {
    Allowed,
    DeniedUserChoice,
    DeniedExpired,
    DeniedReplay,
    DeniedUnknown,
}

impl RedeemOutcome {
    /// The outcome consumed the ticket: the attempt got past the unknown,
    /// expiry and replay checks.
    pub open spec fn consumed_ticket(self) -> bool {
        self == RedeemOutcome::Allowed || self == RedeemOutcome::DeniedUserChoice
    }

    pub open spec fn decision_seq(self) -> Seq<char> {
        if self == RedeemOutcome::Allowed {
            "ALLOW"@
        } else {
            "DENY"@
        }
    }

    pub open spec fn reason_seq(self) -> Seq<char> {
        match self {
            RedeemOutcome::Allowed => "user allowed"@,
            RedeemOutcome::DeniedUserChoice => "user blocked"@,
            RedeemOutcome::DeniedExpired => "expired ticket"@,
            RedeemOutcome::DeniedReplay => "replay blocked"@,
            RedeemOutcome::DeniedUnknown => "unknown ticket"@,
        }
    }

    pub fn decision_str(&self) -> (r: &'static str)
        ensures
            r@ == self.decision_seq(),
    {
        match self {
            RedeemOutcome::Allowed => "ALLOW",
            _ => "DENY",
        }
    }

    pub fn reason_str(&self) -> (r: &'static str)
        ensures
            r@ == self.reason_seq(),
    {
        match self {
            RedeemOutcome::Allowed => "user allowed",
            RedeemOutcome::DeniedUserChoice => "user blocked",
            RedeemOutcome::DeniedExpired => "expired ticket",
            RedeemOutcome::DeniedReplay => "replay blocked",
            RedeemOutcome::DeniedUnknown => "unknown ticket",
        }
    }
}

/// What one redemption attempt returns, as a function of the ticket map, the
/// id, whether the normalized choice was `ALLOW`, and the time.
pub open spec fn redeem_outcome_spec(
    m: Map<Seq<char>, TicketView>,
    id: Seq<char>,
    allow: bool,
    now: u64,
) -> RedeemOutcome {
    if !m.contains_key(id) {
        RedeemOutcome::DeniedUnknown
    } else if now > m[id].exp_ms {
        RedeemOutcome::DeniedExpired
    } else if m[id].consumed {
        RedeemOutcome::DeniedReplay
    } else if allow {
        RedeemOutcome::Allowed
    } else {
        RedeemOutcome::DeniedUserChoice
    }
}

/// How one redemption attempt changes the ticket map: the ticket is marked
/// consumed exactly when the attempt reaches the choice; an expiry check
/// alone never marks it.
pub open spec fn redeem_map_spec(
    m: Map<Seq<char>, TicketView>,
    id: Seq<char>,
    now: u64,
) -> Map<Seq<char>, TicketView> {
    if m.contains_key(id) && now <= m[id].exp_ms && !m[id].consumed {
        m.insert(id, TicketView { consumed: true, ..m[id] })
    } else {
        m
    }
}

/// The authoritative ticket map.
pub struct TicketStore {
    entries: Vec<TicketEntry>,
}

impl TicketStore {
    pub closed spec fn tickets(&self) -> Map<Seq<char>, TicketView> {
        map_of(self.entries@)
    }

    pub closed spec fn wf(&self) -> bool {
        unique_ids(self.entries@)
    }

    pub fn new() -> (r: TicketStore)
        ensures
            r.wf(),
            r.tickets() == Map::<Seq<char>, TicketView>::empty(),
    {
        TicketStore { entries: Vec::new() }
    }

    fn find(&self, id: &str) -> (r: Option<usize>)
        ensures
            match r {
                Some(i) => i < self.entries@.len() && self.entries@[i as int].id@ == id@,
                None => !has_id(self.entries@, id@),
            },
    {
        let key = String::from_str(id);
        let n = self.entries.len();
        let mut i: usize = 0;
        while i < n
            invariant
                i <= n,
                n == self.entries@.len(),
                key@ == id@,
                forall|j: int| 0 <= j < i ==> (#[trigger] self.entries@[j]).id@ != id@,
            decreases n - i,
        {
            if self.entries[i].id == key {
                return Some(i);
            }
            i = i + 1;
        }
        None
    }

    /// Store a freshly issued ticket under `id`, unconsumed, expiring at
    /// `exp_ms`. An id collision (not defended against further: the id space
    /// is wide) overwrites the older ticket, as a map insertion does.
    pub fn insert(&mut self, id: String, exp_ms: u64, risk: u16, meta: serde_json::Value)
        requires
            old(self).wf(),
        ensures
            final(self).wf(),
            final(self).tickets() == old(self).tickets().insert(
                id@,
                TicketView { exp_ms, consumed: false, risk, meta },
            ),
    {
        let entry = TicketEntry { id, exp_ms, consumed: false, risk, meta };
        let ghost gentry = entry;
        match self.find(entry.id.as_str()) {
            Some(i) => {
                proof {
                    lemma_map_update(self.entries@, i as int, gentry);
                }
                self.entries.remove(i);
                self.entries.insert(i, entry);
                proof {
                    assert(self.entries@ =~= old(self).entries@.update(i as int, gentry));
                }
            },
            None => {
                proof {
                    let s = self.entries@;
                    let s2 = s.push(gentry);
                    lemma_map_push(s, gentry);
                    assert forall|p: int, q: int| 0 <= p < q < s2.len() implies (
                    #[trigger] s2[p]).id@ != (#[trigger] s2[q]).id@ by {
                        assert(s2[p] == s[p]);
                        if q < s.len() {
                            assert(s2[q] == s[q]);
                        } else {
                            assert(s2[q] == gentry);
                            assert((#[trigger] s[p]).id@ != gentry.id@);
                        }
                    }
                }
                self.entries.push(entry);
            },
        }
    }

    /// Redeem the ticket `id` with the already-normalized choice. Every call
    /// produces a definite outcome; the ticket map changes exactly as
    /// `redeem_map_spec` says.
    pub fn redeem(&mut self, id: &str, allow: bool, now: u64) -> (r: RedeemOutcome)
        requires
            old(self).wf(),
        ensures
            final(self).wf(),
            r == redeem_outcome_spec(old(self).tickets(), id@, allow, now),
            final(self).tickets() == redeem_map_spec(old(self).tickets(), id@, now),
    {
        proof {
            lemma_map_domain(self.entries@, id@);
        }
        match self.find(id) {
            None => RedeemOutcome::DeniedUnknown,
            Some(i) => {
                proof {
                    lemma_map_index(self.entries@, i as int);
                }
                if now > self.entries[i].exp_ms {
                    RedeemOutcome::DeniedExpired
                } else if self.entries[i].consumed {
                    RedeemOutcome::DeniedReplay
                } else {
                    let e = self.entries.remove(i);
                    let e2 = TicketEntry { consumed: true, ..e };
                    let ghost ge2 = e2;
                    proof {
                        lemma_map_update(old(self).entries@, i as int, ge2);
                    }
                    self.entries.insert(i, e2);
                    proof {
                        assert(self.entries@ =~= old(self).entries@.update(i as int, ge2));
                    }
                    if allow {
                        RedeemOutcome::Allowed
                    } else {
                        RedeemOutcome::DeniedUserChoice
                    }
                }
            },
        }
    }
}

/// A ticket is consumed by at most one redemption. Once an attempt consumes
/// the ticket, a second attempt on the same id never reaches the choice
/// again: while the ticket is unexpired it is denied exactly as a replay,
/// and at any time it can neither be allowed nor denied by user choice.
pub proof fn lemma_single_consumption(
    m: Map<Seq<char>, TicketView>,
    id: Seq<char>,
    a1: bool,
    t1: u64,
    a2: bool,
    t2: u64,
)
    ensures
        ({
            let r1 = redeem_outcome_spec(m, id, a1, t1);
            let m1 = redeem_map_spec(m, id, t1);
            let r2 = redeem_outcome_spec(m1, id, a2, t2);
            &&& (r1.consumed_ticket() ==> !r2.consumed_ticket())
            &&& (r1.consumed_ticket() && t2 <= m[id].exp_ms ==> r2
                == RedeemOutcome::DeniedReplay)
        }),
{
}

/// Consumption is one-way: a consumed ticket stays consumed, with an
/// unchanged expiry, across any later redemption of any id.
pub proof fn lemma_consumed_forever(
    m: Map<Seq<char>, TicketView>,
    id: Seq<char>,
    other: Seq<char>,
    t: u64,
)
    requires
        m.contains_key(id),
        m[id].consumed,
    ensures
        ({
            let m1 = redeem_map_spec(m, other, t);
            &&& m1.contains_key(id)
            &&& m1[id].consumed
            &&& m1[id].exp_ms == m[id].exp_ms
        }),
{
}

/// A ticket redeemed at or before its expiry is never denied for expiry; one
/// redeemed strictly after it, and not previously consumed, is always denied
/// exactly for expiry, whatever the choice was.
pub proof fn lemma_expiry(m: Map<Seq<char>, TicketView>, id: Seq<char>, allow: bool, now: u64)
    ensures
        m.contains_key(id) && now <= m[id].exp_ms ==> redeem_outcome_spec(m, id, allow, now)
            != RedeemOutcome::DeniedExpired,
        !m.contains_key(id) ==> redeem_outcome_spec(m, id, allow, now)
            == RedeemOutcome::DeniedUnknown,
        m.contains_key(id) && now > m[id].exp_ms && !m[id].consumed ==> redeem_outcome_spec(
            m,
            id,
            allow,
            now,
        ) == RedeemOutcome::DeniedExpired,
{
}

} // verus!
