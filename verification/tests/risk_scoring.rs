use kasbah_guard::ids::format_ticket_id;
use kasbah_guard::ids::simple_id;
use kasbah_guard::risk::policy_preflight;

#[test]
fn empty_preview_scores_baseline() {
    let (risk, verdict, reason) = policy_preflight("");
    assert_eq!(risk, 10);
    assert_eq!(verdict, "ALLOW");
    assert_eq!(reason, "No issues detected");
}

#[test]
fn api_key_preview_warns() {
    let (risk, verdict, reason) = policy_preflight("my api_key=sk-123");
    assert_eq!(risk, 85);
    assert_eq!(verdict, "WARN");
    assert_eq!(reason, "Sensitive patterns: api_key, sk-");
}

#[test]
fn password_is_found_case_insensitively() {
    let (risk, verdict, reason) = policy_preflight("My Password is here");
    assert_eq!(risk, 85);
    assert_eq!(verdict, "WARN");
    assert!(reason.contains("password"));
    assert_eq!(reason, "Sensitive patterns: password");
}

#[test]
fn connection_string_and_token_prefixes_warn() {
    let (risk, _, reason) = policy_preflight("POSTGRES://user@host and a ghp_ token");
    assert_eq!(risk, 85);
    assert_eq!(reason, "Sensitive patterns: ghp_, postgres://");
}

#[test]
fn very_large_clean_preview() {
    let text = "x".repeat(6000);
    let (risk, verdict, reason) = policy_preflight(&text);
    assert_eq!(risk, 35);
    assert_eq!(verdict, "ALLOW");
    assert_eq!(reason, "Very large message (6000 chars)");
}

#[test]
fn large_clean_preview() {
    let text = "y".repeat(3000);
    let (risk, verdict, reason) = policy_preflight(&text);
    assert_eq!(risk, 25);
    assert_eq!(verdict, "ALLOW");
    assert_eq!(reason, "Large message (3000 chars)");
}

#[test]
fn length_brackets_are_exclusive() {
    let at_low = "z".repeat(2500);
    let (risk_low, _, reason_low) = policy_preflight(&at_low);
    assert_eq!(risk_low, 10);
    assert_eq!(reason_low, "No issues detected");

    let over_low = "z".repeat(2501);
    let (risk_over, _, reason_over) = policy_preflight(&over_low);
    assert_eq!(risk_over, 25);
    assert_eq!(reason_over, "Large message (2501 chars)");

    let at_high = "z".repeat(5000);
    let (risk_high, _, reason_high) = policy_preflight(&at_high);
    assert_eq!(risk_high, 25);
    assert_eq!(reason_high, "Large message (5000 chars)");
}

#[test]
fn secrets_and_length_reasons_are_joined() {
    let mut text = String::from("password");
    text.push_str(&"x".repeat(5992));
    let (risk, verdict, reason) = policy_preflight(&text);
    assert_eq!(risk, 100);
    assert_eq!(verdict, "WARN");
    assert_eq!(reason, "Sensitive patterns: password; Very large message (6000 chars)");
}

#[test]
fn marker_match_counts_once() {
    let (risk, _, reason) = policy_preflight("secret secret secret");
    assert_eq!(risk, 85);
    assert_eq!(reason, "Sensitive patterns: secret");
}

#[test]
fn ticket_id_rendering_is_exact() {
    assert_eq!(format_ticket_id(0), "00000000-0000-4000-8000-000000000000");
    assert_eq!(
        format_ticket_id(0x0123456789abcdef0123456789abcdefu128),
        "01234567-89ab-4def-8123-456789abcdef"
    );
    assert_eq!(format_ticket_id(u128::MAX), "ffffffff-ffff-4fff-bfff-ffffffffffff");
}

#[test]
fn simple_id_has_uuid_shape() {
    let id = simple_id();
    let chars: Vec<char> = id.chars().collect();
    assert_eq!(chars.len(), 36);
    assert_eq!(chars[8], '-');
    assert_eq!(chars[13], '-');
    assert_eq!(chars[14], '4');
    assert_eq!(chars[18], '-');
    assert_eq!(chars[23], '-');
}
