//! The bounded audit log: an append-only, newest-first record of everything
//! the authority did, trimmed from the back once a fixed capacity is
//! exceeded.

use vstd::prelude::*;
use std::collections::VecDeque;
use crate::MAX_EVENTS;

verus! {

/// The payload of one audit record; the variant is the record's kind tag.
pub enum EventData {
    /// The authority started.
    Startup { message: String, port: u16 },
    /// A ticket was issued: the scorer's outputs and the caller's own count
    /// of candidate secrets.
    Decide { ticket: String, risk: u16, preflight: String, reason: String, secrets: u64 },
    /// A redemption was attempted.
    Consume { ticket: String, decision: String, reason: String, choice: String },
}

impl EventData {
    /// The kind tag of this record.
    pub open spec fn kind_seq(&self) -> Seq<char> {
        match self {
            EventData::Startup { .. } => "STARTUP"@,
            EventData::Decide { .. } => "DECIDE"@,
            EventData::Consume { .. } => "CONSUME"@,
        }
    }

    pub fn kind_str(&self) -> (r: &'static str)
        ensures
            r@ == self.kind_seq(),
    {
        match self {
            EventData::Startup { .. } => "STARTUP",
            EventData::Decide { .. } => "DECIDE",
            EventData::Consume { .. } => "CONSUME",
        }
    }
}

/// One immutable audit record.
pub struct Event {
    pub ts_ms: u64,
    pub data: EventData,
}

/// The log after recording one event at the front: one longer up to the
/// capacity, and everything but the newest entry is the longest prefix of
/// the old log that fits.
pub open spec fn pushed_front(oldl: Seq<Event>, newl: Seq<Event>) -> bool {
    &&& newl.len() == (if oldl.len() < MAX_EVENTS {
        oldl.len() + 1
    } else {
        MAX_EVENTS as nat
    })
    &&& newl.subrange(1, newl.len() as int) == oldl.take(newl.len() as int - 1)
}

/// The bounded audit log; view index 0 is the most recent record.
pub struct EventLog {
    entries: VecDeque<Event>,
}

impl View for EventLog {
    type V = Seq<Event>;

    closed spec fn view(&self) -> Seq<Event> {
        self.entries@
    }
}

impl EventLog {
    pub fn new() -> (r: EventLog)
        ensures
            r@ == Seq::<Event>::empty(),
    {
        EventLog { entries: VecDeque::new() }
    }

    /// Prepend a record, evicting the oldest once the capacity is exceeded.
    pub fn record(&mut self, e: Event)
        requires
            old(self)@.len() <= MAX_EVENTS,
        ensures
            final(self)@.len() <= MAX_EVENTS,
            final(self)@.len() >= 1,
            final(self)@[0] == e,
            pushed_front(old(self)@, final(self)@),
            old(self)@.len() < MAX_EVENTS ==> final(self)@ == seq![e] + old(self)@,
    {
        self.entries.push_front(e);
        if self.entries.len() > MAX_EVENTS {
            self.entries.pop_back();
            proof {
                assert(self.entries@ =~= (seq![e] + old(self)@).take(MAX_EVENTS as int));
                assert(self.entries@.subrange(1, self.entries@.len() as int) =~= old(self)@.take(
                    self.entries@.len() as int - 1,
                ));
            }
        } else {
            proof {
                assert(self.entries@ =~= seq![e] + old(self)@);
                assert(self.entries@.subrange(1, self.entries@.len() as int) =~= old(self)@.take(
                    self.entries@.len() as int - 1,
                ));
            }
        }
    }

    pub fn len(&self) -> (n: usize)
        ensures
            n == self@.len(),
    {
        self.entries.len()
    }

    /// The `i`-th newest record.
    pub fn get(&self, i: usize) -> (e: &Event)
        requires
            i < self@.len(),
        ensures
            *e == self@[i as int],
    {
        &self.entries[i]
    }
}

} // verus!
