use cargo_promote::domain::deferral::{Deferral, DeferralKind, DeferralStatus};
use cargo_promote::domain::traits::Notifier;
use cargo_promote::infra::notify::NoopNotifier;

fn sample_deferral() -> Deferral {
    Deferral {
        ticket: "d-test".to_string(),
        crate_name: "mycrate".to_string(),
        version: "0.1.0".to_string(),
        from_stage: "staging".to_string(),
        to_stage: "production".to_string(),
        status: DeferralStatus::Pending,
        kind: DeferralKind::Registry,
        deferred_at: "20260531.120000".to_string(),
        source_hash: "sha256:abc".to_string(),
        command: vec![],
        reason: String::new(),
        pr_number: None,
    }
}

#[test]
fn noop_notifier_returns_ok() {
    let n = NoopNotifier;
    assert!(n.on_deferred(&sample_deferral()).is_ok());
}
