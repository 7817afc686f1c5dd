use cargo_promote::domain::deferral::{
    pending_only, sort_by_deferred_at, text_le_exec, Deferral, DeferralKind, DeferralStatus,
};

fn sample_deferral() -> Deferral {
    Deferral {
        ticket: "d-20260531.185400-mycrate".to_string(),
        crate_name: "mycrate".to_string(),
        version: "0.2.1".to_string(),
        from_stage: "cratebox".to_string(),
        to_stage: "crates-io".to_string(),
        status: DeferralStatus::Pending,
        kind: DeferralKind::Registry,
        deferred_at: "20260531.185400".to_string(),
        source_hash: "sha256:abc123".to_string(),
        command: vec![],
        reason: String::new(),
        pr_number: None,
    }
}

#[test]
fn ticket_id_contains_crate_name() {
    let id = Deferral::ticket_id("mycrate");
    assert!(id.starts_with("d-"));
    assert!(id.ends_with("-mycrate"));
}

#[test]
fn into_confirmed_transitions_pending() {
    let d = sample_deferral();
    let confirmed = d.into_confirmed("CI passed").unwrap();
    assert_eq!(confirmed.status, DeferralStatus::Confirmed);
    assert_eq!(confirmed.reason, "CI passed");
}

#[test]
fn into_rejected_transitions_pending() {
    let d = sample_deferral();
    let rejected = d.into_rejected("tests failed").unwrap();
    assert_eq!(rejected.status, DeferralStatus::Rejected);
    assert_eq!(rejected.reason, "tests failed");
}

#[test]
fn into_confirmed_errors_when_already_confirmed() {
    let mut d = sample_deferral();
    d.status = DeferralStatus::Confirmed;
    assert!(d.into_confirmed("").is_err());
}

#[test]
fn into_rejected_errors_when_already_rejected() {
    let mut d = sample_deferral();
    d.status = DeferralStatus::Rejected;
    assert!(d.into_rejected("").is_err());
}

#[test]
fn into_confirmed_errors_when_rejected() {
    let mut d = sample_deferral();
    d.status = DeferralStatus::Rejected;
    assert!(d.into_confirmed("nope").is_err());
}

#[test]
fn into_rejected_errors_when_confirmed() {
    let mut d = sample_deferral();
    d.status = DeferralStatus::Confirmed;
    assert!(d.into_rejected("nope").is_err());
}

#[test]
fn settled_ticket_keeps_its_identity_and_stays_settled() {
    let confirmed = sample_deferral().into_confirmed("ok").unwrap();
    assert_eq!(confirmed.ticket, "d-20260531.185400-mycrate");
    assert_eq!(confirmed.source_hash, "sha256:abc123");
    let again = confirmed.into_rejected("late");
    assert_eq!(
        again.unwrap_err().message(),
        "deferral 'd-20260531.185400-mycrate' is already Confirmed"
    );
}

#[test]
fn ticket_id_at_is_prefix_timestamp_and_name() {
    assert_eq!(
        Deferral::ticket_id_at("20260531.185400", "mycrate"),
        "d-20260531.185400-mycrate"
    );
}

fn at(ticket: &str, deferred_at: &str, status: DeferralStatus) -> Deferral {
    let mut d = sample_deferral();
    d.ticket = ticket.to_string();
    d.deferred_at = deferred_at.to_string();
    d.status = status;
    d
}

#[test]
fn tickets_sort_by_time_and_pending_ones_are_kept() {
    let all = vec![
        at("c", "20260602.090000", DeferralStatus::Pending),
        at("a", "20260531.120000", DeferralStatus::Confirmed),
        at("b", "20260601.080000", DeferralStatus::Pending),
        at("d", "20260601.080000", DeferralStatus::Rejected),
    ];
    let sorted = sort_by_deferred_at(all);
    let order: Vec<&str> = sorted.iter().map(|d| d.ticket.as_str()).collect();
    assert_eq!(order, vec!["a", "b", "d", "c"]);
    let pending = pending_only(sorted);
    let order: Vec<&str> = pending.iter().map(|d| d.ticket.as_str()).collect();
    assert_eq!(order, vec!["b", "c"]);
}

#[test]
fn text_order_is_by_characters_with_prefix_first() {
    assert!(text_le_exec("20260531", "20260601"));
    assert!(!text_le_exec("b", "a"));
    assert!(text_le_exec("ab", "abc"));
    assert!(!text_le_exec("abc", "ab"));
    assert!(text_le_exec("same", "same"));
}
