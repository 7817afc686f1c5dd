use cargo_promote::domain::traits::{Forge, NoopForge};

#[test]
fn noop_forge_create_release_returns_ok() {
    let forge = NoopForge;
    assert!(
        forge
            .create_release("v0.1.0", "Release 0.1.0", "body")
            .is_ok()
    );
}

#[test]
fn noop_forge_create_pr_returns_zero() {
    let forge = NoopForge;
    let pr = forge.create_pr("title", "body", "head", "base").unwrap();
    assert_eq!(pr, 0);
}

#[test]
fn noop_forge_comment_pr_returns_ok() {
    let forge = NoopForge;
    assert!(forge.comment_pr(1, "comment").is_ok());
}

#[test]
fn noop_forge_close_pr_returns_ok() {
    let forge = NoopForge;
    assert!(forge.close_pr(1).is_ok());
}
