use kasbah_guard::events::EventData;
use kasbah_guard::state::Authority;
use kasbah_guard::store::RedeemOutcome;
use kasbah_guard::{MAX_EVENTS, PORT};

fn fresh() -> Authority {
    Authority::new()
}

#[test]
fn unknown_ticket_is_denied_and_counted() {
    let mut a = fresh();
    let before = a.counters_snapshot();
    let r = a.consume("never-issued", Some("ALLOW"), 1_000);
    assert_eq!(r, RedeemOutcome::DeniedUnknown);
    assert_eq!(r.decision_str(), "DENY");
    assert_eq!(r.reason_str(), "unknown ticket");
    let after = a.counters_snapshot();
    assert_eq!(after.total, before.total + 1);
    assert_eq!(after.denied, before.denied + 1);
    assert_eq!(after.allowed, before.allowed);
    assert_eq!(after.replay_blocked, 0);
}

#[test]
fn warn_ticket_single_use() {
    let mut a = fresh();
    let out = a.decide(
        "my api_key=sk-123",
        0,
        serde_json::Value::Null,
        1_000,
        String::from("ticket-one"),
    );
    assert_eq!(out.risk, 85);
    assert_eq!(out.preflight, "WARN");
    assert_eq!(out.exp_ms, 61_000);

    let first = a.consume("ticket-one", Some("ALLOW"), 60_999);
    assert_eq!(first, RedeemOutcome::Allowed);
    assert_eq!(first.decision_str(), "ALLOW");
    assert_eq!(first.reason_str(), "user allowed");

    let second = a.consume("ticket-one", Some("ALLOW"), 60_999);
    assert_eq!(second, RedeemOutcome::DeniedReplay);
    assert_eq!(second.decision_str(), "DENY");
    assert_eq!(second.reason_str(), "replay blocked");

    let stats = a.counters_snapshot();
    assert_eq!(stats.total, 2);
    assert_eq!(stats.allowed, 1);
    assert_eq!(stats.denied, 1);
    assert_eq!(stats.replay_blocked, 1);
    assert_eq!(stats.total, stats.allowed + stats.denied);
    assert!(stats.replay_blocked <= stats.denied);
}

#[test]
fn clean_ticket_expires() {
    let mut a = fresh();
    let out = a.decide("", 0, serde_json::Value::Null, 1_000, String::from("t-exp"));
    assert_eq!(out.risk, 10);
    assert_eq!(out.preflight, "ALLOW");
    assert_eq!(out.reason, "No issues detected");

    let late = a.consume("t-exp", Some("ALLOW"), 61_001);
    assert_eq!(late, RedeemOutcome::DeniedExpired);
    assert_eq!(late.reason_str(), "expired ticket");

    let again = a.consume("t-exp", Some("ALLOW"), 61_002);
    assert_eq!(again, RedeemOutcome::DeniedExpired);
    assert_eq!(again.reason_str(), "expired ticket");
}

#[test]
fn redemption_at_expiry_instant_is_honoured() {
    let mut a = fresh();
    a.decide("", 0, serde_json::Value::Null, 1_000, String::from("t-edge"));
    let r = a.consume("t-edge", Some("ALLOW"), 61_000);
    assert_eq!(r, RedeemOutcome::Allowed);
}

#[test]
fn choice_is_case_insensitive() {
    let mut a = fresh();
    a.decide("", 0, serde_json::Value::Null, 0, String::from("t-lower"));
    let r = a.consume("t-lower", Some("allow"), 1);
    assert_eq!(r, RedeemOutcome::Allowed);
}

#[test]
fn unrecognized_or_missing_choice_denies() {
    let mut a = fresh();
    a.decide("", 0, serde_json::Value::Null, 0, String::from("t-yes"));
    let r = a.consume("t-yes", Some("yes"), 1);
    assert_eq!(r, RedeemOutcome::DeniedUserChoice);
    assert_eq!(r.decision_str(), "DENY");
    assert_eq!(r.reason_str(), "user blocked");

    a.decide("", 0, serde_json::Value::Null, 0, String::from("t-none"));
    let r2 = a.consume("t-none", None, 1);
    assert_eq!(r2, RedeemOutcome::DeniedUserChoice);
    assert_eq!(r2.reason_str(), "user blocked");
}

#[test]
fn secrets_caught_counts_issuances_with_flags() {
    let mut a = fresh();
    a.decide("", 2, serde_json::Value::Null, 0, String::from("t-a"));
    assert_eq!(a.counters_snapshot().secrets_caught, 1);
    a.decide("", 0, serde_json::Value::Null, 0, String::from("t-b"));
    assert_eq!(a.counters_snapshot().secrets_caught, 1);
    a.decide("", 1, serde_json::Value::Null, 0, String::from("t-c"));
    assert_eq!(a.counters_snapshot().secrets_caught, 2);
}

#[test]
fn event_log_is_newest_first() {
    let mut a = fresh();
    a.record_startup(5);
    a.decide("", 0, serde_json::Value::Null, 6, String::from("t-ev"));
    a.consume("t-ev", Some("ALLOW"), 7);
    assert_eq!(a.events_len(), 3);
    assert_eq!(a.event_at(0).ts_ms, 7);
    assert_eq!(a.event_at(0).data.kind_str(), "CONSUME");
    assert_eq!(a.event_at(1).ts_ms, 6);
    assert_eq!(a.event_at(1).data.kind_str(), "DECIDE");
    assert_eq!(a.event_at(2).ts_ms, 5);
    assert_eq!(a.event_at(2).data.kind_str(), "STARTUP");
    match &a.event_at(1).data {
        EventData::Decide { ticket, risk, preflight, reason, secrets } => {
            assert_eq!(ticket.as_str(), "t-ev");
            assert_eq!(*risk, 10);
            assert_eq!(preflight.as_str(), "ALLOW");
            assert_eq!(reason.as_str(), "No issues detected");
            assert_eq!(*secrets, 0);
        },
        _ => panic!("expected a DECIDE record"),
    }
    match &a.event_at(0).data {
        EventData::Consume { ticket, decision, reason, choice } => {
            assert_eq!(ticket.as_str(), "t-ev");
            assert_eq!(decision.as_str(), "ALLOW");
            assert_eq!(reason.as_str(), "user allowed");
            assert_eq!(choice.as_str(), "ALLOW");
        },
        _ => panic!("expected a CONSUME record"),
    }
    match &a.event_at(2).data {
        EventData::Startup { message, port } => {
            assert_eq!(message.as_str(), "Kasbah Guard started");
            assert_eq!(*port, PORT);
        },
        _ => panic!("expected a STARTUP record"),
    }
}

#[test]
fn event_log_is_bounded() {
    let mut a = fresh();
    for i in 0..(MAX_EVENTS as u64 + 10) {
        a.record_startup(i);
    }
    assert_eq!(a.events_len(), MAX_EVENTS);
    assert_eq!(a.event_at(0).ts_ms, MAX_EVENTS as u64 + 9);
    assert_eq!(a.event_at(MAX_EVENTS - 1).ts_ms, 10);
}

#[test]
fn counters_balance_over_mixed_sequences() {
    let mut a = fresh();
    a.decide("", 0, serde_json::Value::Null, 0, String::from("s1"));
    a.decide("", 0, serde_json::Value::Null, 0, String::from("s2"));
    a.consume("s1", Some("ALLOW"), 1);
    a.consume("s1", Some("ALLOW"), 2);
    a.consume("s2", Some("no"), 3);
    a.consume("missing", None, 4);
    let stats = a.counters_snapshot();
    assert_eq!(stats.total, 4);
    assert_eq!(stats.allowed, 1);
    assert_eq!(stats.denied, 3);
    assert_eq!(stats.replay_blocked, 1);
    assert_eq!(stats.total, stats.allowed + stats.denied);
    assert!(stats.replay_blocked <= stats.denied);
}

#[test]
fn issuing_twice_under_one_id_overwrites() {
    let mut a = fresh();
    a.decide("", 0, serde_json::Value::Null, 0, String::from("dup"));
    a.consume("dup", Some("ALLOW"), 1);
    a.decide("", 0, serde_json::Value::Null, 2, String::from("dup"));
    let r = a.consume("dup", Some("ALLOW"), 3);
    assert_eq!(r, RedeemOutcome::Allowed);
}
